//! Names of transcoded images: the extension of the old format gives way to
//! `.ktx2`, and an image without a name gets a numbered one.

use vstd::prelude::*;
use vstd::string::{StrSliceExecFns, StringExecFns};

verus! {

/// `c` is the letter whose two cases are `lower` and `upper`.
pub open spec fn is_letter(c: char, lower: char, upper: char) -> bool {
    c == lower || c == upper
}

/// `s` ends in `.jpg`, in any mix of upper and lower case.
pub open spec fn ends_with_jpg(s: Seq<char>) -> bool {
    let n = s.len() as int;
    &&& n >= 4
    &&& s[n - 4] == '.'
    &&& is_letter(s[n - 3], 'j', 'J')
    &&& is_letter(s[n - 2], 'p', 'P')
    &&& is_letter(s[n - 1], 'g', 'G')
}

/// `s` ends in `.png`, in any mix of upper and lower case.
pub open spec fn ends_with_png(s: Seq<char>) -> bool {
    let n = s.len() as int;
    &&& n >= 4
    &&& s[n - 4] == '.'
    &&& is_letter(s[n - 3], 'p', 'P')
    &&& is_letter(s[n - 2], 'n', 'N')
    &&& is_letter(s[n - 1], 'g', 'G')
}

/// `s` ends in `.jpeg`, in any mix of upper and lower case.
pub open spec fn ends_with_jpeg(s: Seq<char>) -> bool {
    let n = s.len() as int;
    &&& n >= 5
    &&& s[n - 5] == '.'
    &&& is_letter(s[n - 4], 'j', 'J')
    &&& is_letter(s[n - 3], 'p', 'P')
    &&& is_letter(s[n - 2], 'e', 'E')
    &&& is_letter(s[n - 1], 'g', 'G')
}

/// `s` ends in `.webp`, in any mix of upper and lower case.
pub open spec fn ends_with_webp(s: Seq<char>) -> bool {
    let n = s.len() as int;
    &&& n >= 5
    &&& s[n - 5] == '.'
    &&& is_letter(s[n - 4], 'w', 'W')
    &&& is_letter(s[n - 3], 'e', 'E')
    &&& is_letter(s[n - 2], 'b', 'B')
    &&& is_letter(s[n - 1], 'p', 'P')
}

/// Length of the recognized image extension that `s` ends in, dot included; zero
/// where it ends in none.
pub open spec fn extension_len(s: Seq<char>) -> int {
    if ends_with_jpeg(s) || ends_with_webp(s) {
        5
    } else if ends_with_jpg(s) || ends_with_png(s) {
        4
    } else {
        0
    }
}

/// The characters of `.ktx2`.
pub open spec fn ktx2_extension() -> Seq<char> {
    seq!['.', 'k', 't', 'x', '2']
}

/// The name of the transcoded image: `s` without its recognized extension, if it
/// has one, followed by `.ktx2`.
pub open spec fn ktx2_name(s: Seq<char>) -> Seq<char> {
    s.subrange(0, s.len() - extension_len(s)) + ktx2_extension()
}

/// Name rewriting: the new name is the old one without its recognized extension,
/// followed by `.ktx2`; it ends in `.ktx2` and in no recognized extension.
pub proof fn lemma_ktx2_name_ends_in_ktx2(s: Seq<char>)
    ensures
        ktx2_name(s).len() == s.len() - extension_len(s) + 5,
        ktx2_name(s).subrange(0, s.len() - extension_len(s)) == s.subrange(
            0,
            s.len() - extension_len(s),
        ),
        ktx2_name(s).subrange(ktx2_name(s).len() - 5, ktx2_name(s).len() as int)
            == ktx2_extension(),
        extension_len(ktx2_name(s)) == 0,
{
    let r = ktx2_name(s);
    assert(r.subrange(0, s.len() - extension_len(s)) =~= s.subrange(0, s.len() - extension_len(s)));
    assert(r.subrange(r.len() - 5, r.len() as int) =~= ktx2_extension());
    assert(r[r.len() - 1] == '2');
}

/// Executable form of [`is_letter`].
fn letter(c: char, lower: char, upper: char) -> (r: bool)
    ensures
        r == is_letter(c, lower, upper),
{
    c == lower || c == upper
}

/// Length of the recognized image extension at the end of `name`.
fn recognized_extension(name: &str, n: usize) -> (k: usize)
    requires
        n == name@.len(),
    ensures
        k == extension_len(name@),
        k <= n,
{
    if n >= 5 {
        let c0 = name.get_char(n - 5);
        let c1 = name.get_char(n - 4);
        let c2 = name.get_char(n - 3);
        let c3 = name.get_char(n - 2);
        let c4 = name.get_char(n - 1);
        if c0 == '.' && letter(c1, 'j', 'J') && letter(c2, 'p', 'P') && letter(c3, 'e', 'E')
            && letter(c4, 'g', 'G') {
            return 5;
        }
        if c0 == '.' && letter(c1, 'w', 'W') && letter(c2, 'e', 'E') && letter(c3, 'b', 'B')
            && letter(c4, 'p', 'P') {
            return 5;
        }
    }
    if n >= 4 {
        let c0 = name.get_char(n - 4);
        let c1 = name.get_char(n - 3);
        let c2 = name.get_char(n - 2);
        let c3 = name.get_char(n - 1);
        if c0 == '.' && letter(c1, 'j', 'J') && letter(c2, 'p', 'P') && letter(c3, 'g', 'G') {
            return 4;
        }
        if c0 == '.' && letter(c1, 'p', 'P') && letter(c2, 'n', 'N') && letter(c3, 'g', 'G') {
            return 4;
        }
    }
    0
}

/// The name or URI that an image gets when it is transcoded to KTX2.
///
/// A recognized extension (`.jpg`, `.jpeg`, `.png`, `.webp`, in any case) at the end
/// is replaced by `.ktx2`; a name without one has `.ktx2` appended. No name stays
/// no name.
pub fn update_image_name_for_ktx2(image_name: &Option<String>) -> (r: Option<String>)
    ensures
        match *image_name {
            Some(name) => r matches Some(n) && n@ == ktx2_name(name@),
            None => r is None,
        },
{
    match image_name {
        Some(name) => {
            let s = name.as_str();
            let n: usize = s.unicode_len();
            let k = recognized_extension(s, n);
            let stem = s.substring_char(0, n - k);
            let renamed = String::from_str(stem).concat(".ktx2");
            proof {
                reveal_strlit(".ktx2");
                assert(".ktx2"@ =~= ktx2_extension());
            }
            Some(renamed)
        },
        None => None,
    }
}

/// The decimal digit for `d`.
pub open spec fn digit(d: int) -> char {
    if d == 0 {
        '0'
    } else if d == 1 {
        '1'
    } else if d == 2 {
        '2'
    } else if d == 3 {
        '3'
    } else if d == 4 {
        '4'
    } else if d == 5 {
        '5'
    } else if d == 6 {
        '6'
    } else if d == 7 {
        '7'
    } else if d == 8 {
        '8'
    } else {
        '9'
    }
}

/// The decimal numeral of `n`, without leading zeros.
pub open spec fn decimal(n: nat) -> Seq<char>
    decreases n,
{
    if n < 10 {
        seq![digit(n as int)]
    } else {
        decimal(n / 10).push(digit((n % 10) as int))
    }
}

/// The decimal digit for `d` as text.
fn digit_text(d: usize) -> (r: &'static str)
    requires
        d < 10,
    ensures
        r@ == seq![digit(d as int)],
{
    proof {
        reveal_strlit("0");
        reveal_strlit("1");
        reveal_strlit("2");
        reveal_strlit("3");
        reveal_strlit("4");
        reveal_strlit("5");
        reveal_strlit("6");
        reveal_strlit("7");
        reveal_strlit("8");
        reveal_strlit("9");
    }
    let r = if d == 0 {
        "0"
    } else if d == 1 {
        "1"
    } else if d == 2 {
        "2"
    } else if d == 3 {
        "3"
    } else if d == 4 {
        "4"
    } else if d == 5 {
        "5"
    } else if d == 6 {
        "6"
    } else if d == 7 {
        "7"
    } else if d == 8 {
        "8"
    } else {
        "9"
    };
    assert(r@ =~= seq![digit(d as int)]);
    r
}

/// The decimal numeral of `n` as text.
pub fn decimal_text(n: usize) -> (r: String)
    ensures
        r@ == decimal(n as nat),
    decreases n,
{
    if n < 10 {
        String::from_str(digit_text(n))
    } else {
        let mut s = decimal_text(n / 10);
        s.append(digit_text(n % 10));
        assert(s@ =~= decimal((n / 10) as nat).push(digit((n % 10) as int)));
        s
    }
}

/// The characters of `texture_`.
pub open spec fn default_stem() -> Seq<char> {
    seq!['t', 'e', 'x', 't', 'u', 'r', 'e', '_']
}

/// The name given to a transcoded image that had none: `texture_`, the number of
/// images that precede it in the new document, and `.ktx2`.
pub open spec fn default_ktx2_name(n: nat) -> Seq<char> {
    default_stem() + decimal(n) + ktx2_extension()
}

/// Executable form of [`default_ktx2_name`].
pub fn default_image_name(n: usize) -> (r: String)
    ensures
        r@ == default_ktx2_name(n as nat),
{
    let mut s = String::from_str("texture_");
    let digits = decimal_text(n);
    s.append(digits.as_str());
    s.append(".ktx2");
    proof {
        reveal_strlit("texture_");
        reveal_strlit(".ktx2");
        assert("texture_"@ =~= default_stem());
        assert(".ktx2"@ =~= ktx2_extension());
    }
    s
}

} // verus!
