//! The names of a tile: the file it is stored under and the URL it is fetched
//! from. Both are made of decimal numbers, so decimal notation is defined here.
use vstd::prelude::*;
use crate::types::{TileSize, ZoomLevel};

verus! {

/// The character that writes the digit `d`.
pub open spec fn digit_char(d: int) -> char {
    if d == 0 {
        '0'
    } else if d == 1 {
        '1'
    } else if d == 2 {
        '2'
    } else if d == 3 {
        '3'
    } else if d == 4 {
        '4'
    } else if d == 5 {
        '5'
    } else if d == 6 {
        '6'
    } else if d == 7 {
        '7'
    } else if d == 8 {
        '8'
    } else {
        '9'
    }
}

/// Decimal notation of a number: its digits from the most significant to the
/// least, without leading zeros; zero is written `0`.
pub open spec fn decimal(n: nat) -> Seq<char>
    decreases n,
{
    if n < 10 {
        seq![digit_char(n as int)]
    } else {
        decimal(n / 10).push(digit_char((n % 10) as int))
    }
}

/// The directory as it stands in front of a file name: with one `/` after it.
/// A directory that already ends in `/` is taken as it is, so `tiles` and
/// `tiles/` name the same directory. The empty directory gives `/`.
pub open spec fn directory_prefix(tiles_directory: Seq<char>) -> Seq<char> {
    if tiles_directory.len() > 0 && tiles_directory.last() == '/' {
        tiles_directory
    } else {
        tiles_directory.push('/')
    }
}

/// The file name of a tile: the directory and a `/`, then zoom level, column,
/// row and edge length in decimal, separated by dots, then `.tile.png`.
pub open spec fn tile_filename(
    tiles_directory: Seq<char>,
    zoom_level: ZoomLevel,
    x: u32,
    y: u32,
    tile_size: TileSize,
) -> Seq<char> {
    directory_prefix(tiles_directory) + decimal(zoom_level.level() as nat) + seq!['.'] + decimal(
        x as nat,
    ) + seq!['.'] + decimal(y as nat) + seq!['.'] + decimal(tile_size.pixels() as nat) + seq![
        '.',
        't',
        'i',
        'l',
        'e',
        '.',
        'p',
        'n',
        'g',
    ]
}

/// The URL of a tile: endpoint, zoom level, column and row separated by
/// slashes, then the suffix of the tile size, then `.png`.
pub open spec fn tile_url(
    endpoint: Seq<char>,
    tile_size: TileSize,
    zoom_level: ZoomLevel,
    x: u32,
    y: u32,
) -> Seq<char> {
    endpoint + seq!['/'] + decimal(zoom_level.level() as nat) + seq!['/'] + decimal(x as nat)
        + seq!['/'] + decimal(y as nat) + tile_size.url_postfix() + seq!['.', 'p', 'n', 'g']
}

/// The number that a sequence of digits writes in decimal notation.
pub open spec fn decimal_value(digits: Seq<char>) -> nat
    decreases digits.len(),
{
    if digits.len() == 0 {
        0
    } else {
        10 * decimal_value(digits.drop_last()) + digit_value(digits.last())
    }
}

/// The digit that a character writes; 0 for a character that writes none.
pub open spec fn digit_value(c: char) -> nat {
    if c == '1' {
        1
    } else if c == '2' {
        2
    } else if c == '3' {
        3
    } else if c == '4' {
        4
    } else if c == '5' {
        5
    } else if c == '6' {
        6
    } else if c == '7' {
        7
    } else if c == '8' {
        8
    } else if c == '9' {
        9
    } else {
        0
    }
}

/// Whether a text is free of dots.
pub open spec fn without_dot(text: Seq<char>) -> bool {
    forall|i: int| 0 <= i < text.len() ==> text[i] != '.'
}

/// Decimal notation is not empty, holds no dot, and writes the number it was
/// made of: different numbers are written differently.
pub proof fn lemma_decimal_is_read_back(n: nat)
    ensures
        decimal(n).len() >= 1,
        without_dot(decimal(n)),
        decimal_value(decimal(n)) == n,
    decreases n,
{
    if n < 10 {
        let text = decimal(n);
        assert(text.drop_last() =~= Seq::<char>::empty());
        assert(decimal_value(text.drop_last()) == 0);
        assert(text.last() == digit_char(n as int));
    } else {
        lemma_decimal_is_read_back(n / 10);
        let text = decimal(n);
        assert(text.drop_last() =~= decimal(n / 10));
        assert(text.last() == digit_char((n % 10) as int));
        assert forall|i: int| 0 <= i < text.len() implies text[i] != '.' by {
            if i < text.len() - 1 {
                assert(text[i] == decimal(n / 10)[i]);
            }
        }
    }
}

/// A text, a dot, and what follows the dot.
pub open spec fn dotted(text: Seq<char>, rest: Seq<char>) -> Seq<char> {
    text + seq!['.'] + rest
}

/// A text is cut at its first dot in one way only: where two texts without a
/// dot, each followed by a dot and a rest, make the same text, the two texts
/// are the same and so are the rests.
pub proof fn lemma_cut_at_first_dot(
    a: Seq<char>,
    rest_a: Seq<char>,
    b: Seq<char>,
    rest_b: Seq<char>,
)
    requires
        without_dot(a),
        without_dot(b),
        dotted(a, rest_a) == dotted(b, rest_b),
    ensures
        a == b,
        rest_a == rest_b,
{
    let whole_a = dotted(a, rest_a);
    let whole_b = dotted(b, rest_b);
    assert(whole_a.len() == a.len() + 1 + rest_a.len());
    assert(whole_b.len() == b.len() + 1 + rest_b.len());
    if a.len() < b.len() {
        assert(whole_a[a.len() as int] == '.');
        assert(whole_b[a.len() as int] == b[a.len() as int]);
    }
    if b.len() < a.len() {
        assert(whole_b[b.len() as int] == '.');
        assert(whole_a[b.len() as int] == a[b.len() as int]);
    }
    assert(a.len() == b.len());
    assert(rest_a.len() == rest_b.len());
    assert forall|i: int| 0 <= i < a.len() implies a[i] == b[i] by {
        assert(whole_a[i] == a[i]);
        assert(whole_b[i] == b[i]);
    }
    assert(a =~= b);
    assert forall|i: int| 0 <= i < rest_a.len() implies rest_a[i] == rest_b[i] by {
        assert(whole_a[a.len() + 1 + i] == rest_a[i]);
        assert(whole_b[a.len() + 1 + i] == rest_b[i]);
    }
    assert(rest_a =~= rest_b);
}

/// What follows the directory in a tile's file name: four numbers, each with
/// a dot behind it, and the ending.
pub open spec fn name_in_directory(
    zoom_level: ZoomLevel,
    x: u32,
    y: u32,
    tile_size: TileSize,
) -> Seq<char> {
    dotted(
        decimal(zoom_level.level() as nat),
        dotted(
            decimal(x as nat),
            dotted(
                decimal(y as nat),
                dotted(
                    decimal(tile_size.pixels() as nat),
                    seq!['t', 'i', 'l', 'e', '.', 'p', 'n', 'g'],
                ),
            ),
        ),
    )
}

/// A tile's file name is the directory with its `/`, followed by the tile's
/// name in the directory.
pub proof fn lemma_filename_in_directory(
    tiles_directory: Seq<char>,
    zoom_level: ZoomLevel,
    x: u32,
    y: u32,
    tile_size: TileSize,
)
    ensures
        tile_filename(tiles_directory, zoom_level, x, y, tile_size) == directory_prefix(
            tiles_directory,
        ) + name_in_directory(zoom_level, x, y, tile_size),
        name_in_directory(zoom_level, x, y, tile_size) == tile_filename(
            tiles_directory,
            zoom_level,
            x,
            y,
            tile_size,
        ).skip(directory_prefix(tiles_directory).len() as int),
{
    let name = name_in_directory(zoom_level, x, y, tile_size);
    let prefix = directory_prefix(tiles_directory);
    let full = tile_filename(tiles_directory, zoom_level, x, y, tile_size);
    assert(full =~= prefix + name);
    assert(name =~= (prefix + name).skip(prefix.len() as int));
}

/// Within one directory the file name tells the tile: two tiles that differ in
/// zoom level, column, row or size are stored under different names.
pub proof fn lemma_filename_identifies_tile(
    tiles_directory: Seq<char>,
    zoom_level: ZoomLevel,
    x: u32,
    y: u32,
    tile_size: TileSize,
    other_zoom_level: ZoomLevel,
    other_x: u32,
    other_y: u32,
    other_tile_size: TileSize,
)
    requires
        tile_filename(tiles_directory, zoom_level, x, y, tile_size) == tile_filename(
            tiles_directory,
            other_zoom_level,
            other_x,
            other_y,
            other_tile_size,
        ),
    ensures
        zoom_level == other_zoom_level,
        x == other_x,
        y == other_y,
        tile_size == other_tile_size,
{
    lemma_filename_in_directory(tiles_directory, zoom_level, x, y, tile_size);
    lemma_filename_in_directory(
        tiles_directory,
        other_zoom_level,
        other_x,
        other_y,
        other_tile_size,
    );
    let ending = seq!['t', 'i', 'l', 'e', '.', 'p', 'n', 'g'];
    let z = decimal(zoom_level.level() as nat);
    let oz = decimal(other_zoom_level.level() as nat);
    let c = decimal(x as nat);
    let oc = decimal(other_x as nat);
    let r = decimal(y as nat);
    let or = decimal(other_y as nat);
    let p = decimal(tile_size.pixels() as nat);
    let op = decimal(other_tile_size.pixels() as nat);
    lemma_decimal_is_read_back(zoom_level.level() as nat);
    lemma_decimal_is_read_back(other_zoom_level.level() as nat);
    lemma_decimal_is_read_back(x as nat);
    lemma_decimal_is_read_back(other_x as nat);
    lemma_decimal_is_read_back(y as nat);
    lemma_decimal_is_read_back(other_y as nat);
    lemma_decimal_is_read_back(tile_size.pixels() as nat);
    lemma_decimal_is_read_back(other_tile_size.pixels() as nat);
    lemma_cut_at_first_dot(
        z,
        dotted(c, dotted(r, dotted(p, ending))),
        oz,
        dotted(oc, dotted(or, dotted(op, ending))),
    );
    lemma_cut_at_first_dot(c, dotted(r, dotted(p, ending)), oc, dotted(or, dotted(op, ending)));
    lemma_cut_at_first_dot(r, dotted(p, ending), or, dotted(op, ending));
    lemma_cut_at_first_dot(p, ending, op, ending);
}

/// The one-character string that writes a digit.
fn digit_str(d: u32) -> (digit: &'static str)
    requires
        d < 10,
    ensures
        digit@ == seq![digit_char(d as int)],
{
    proof {
        reveal_strlit("0");
        reveal_strlit("1");
        reveal_strlit("2");
        reveal_strlit("3");
        reveal_strlit("4");
        reveal_strlit("5");
        reveal_strlit("6");
        reveal_strlit("7");
        reveal_strlit("8");
        reveal_strlit("9");
    }
    let digit = match d {
        0 => "0",
        1 => "1",
        2 => "2",
        3 => "3",
        4 => "4",
        5 => "5",
        6 => "6",
        7 => "7",
        8 => "8",
        _ => "9",
    };
    assert(digit@ =~= seq![digit_char(d as int)]);
    digit
}

/// Appends the decimal notation of `n` to `text`.
pub fn push_decimal(text: &mut String, n: u32)
    ensures
        final(text)@ == old(text)@ + decimal(n as nat),
    decreases n,
{
    if n >= 10 {
        push_decimal(text, n / 10);
    }
    text.append(digit_str(n % 10));
    assert(text@ =~= old(text)@ + decimal(n as nat));
}

/// The name of the file that a tile is stored under:
/// `{tiles_directory}/{zoom}.{x}.{y}.{pixels}.tile.png`.
///
/// The `/` is left out where the directory already ends in one, so `tiles`
/// and `tiles/` give the same names.
pub fn get_tile_filename(
    tiles_directory: String,
    zoom_level: ZoomLevel,
    x: u32,
    y: u32,
    tile_size: TileSize,
) -> (filename: String)
    ensures
        filename@ == tile_filename(tiles_directory@, zoom_level, x, y, tile_size),
{
    proof {
        reveal_strlit(".");
        reveal_strlit("/");
        reveal_strlit(".tile.png");
    }
    let mut filename = tiles_directory;
    let length = filename.as_str().unicode_len();
    if length == 0 || filename.as_str().get_char(length - 1) != '/' {
        filename.append("/");
    }
    assert(filename@ =~= directory_prefix(tiles_directory@));
    push_decimal(&mut filename, zoom_level.to_u8() as u32);
    filename.append(".");
    push_decimal(&mut filename, x);
    filename.append(".");
    push_decimal(&mut filename, y);
    filename.append(".");
    push_decimal(&mut filename, tile_size.to_pixels());
    filename.append(".tile.png");
    assert(filename@ =~= tile_filename(tiles_directory@, zoom_level, x, y, tile_size));
    filename
}

/// The URL that a tile is fetched from.
pub fn get_tile_url(
    endpoint: String,
    tile_size: TileSize,
    zoom_level: ZoomLevel,
    x: u32,
    y: u32,
) -> (url: String)
    ensures
        url@ == tile_url(endpoint@, tile_size, zoom_level, x, y),
{
    proof {
        reveal_strlit("/");
        reveal_strlit(".png");
    }
    let mut url = endpoint;
    url.append("/");
    push_decimal(&mut url, zoom_level.to_u8() as u32);
    url.append("/");
    push_decimal(&mut url, x);
    url.append("/");
    push_decimal(&mut url, y);
    let postfix = tile_size.get_url_postfix();
    url.append(postfix.as_str());
    url.append(".png");
    assert(url@ =~= tile_url(endpoint@, tile_size, zoom_level, x, y));
    url
}

} // verus!
