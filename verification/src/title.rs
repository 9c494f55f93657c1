//! Title handling: the half-width and full-width character sets of the
//! MiniDisc TOC, and the sanitizers that map arbitrary text onto them.

use vstd::prelude::*;
use crate::chars::append_chars;
use crate::text::{chars_to_string, str_to_chars};
use crate::util::{sjis_encode_of, sjis_encode_raw};

verus! {

/// `char::from_u32`: the character with code point `v`, if `v` is a
/// Unicode scalar value.
#[verifier::external_body]
fn char_from_u32(v: u32) -> (r: Option<char>)
    ensures
        (v < 0xd800 || (0xe000 <= v && v <= 0x10ffff)) ==> r == Some(v as char),
        !(v < 0xd800 || (0xe000 <= v && v <= 0x10ffff)) ==> r is None,
{
    char::from_u32(v)
}

/// The canonical decomposition (NFD) of a string, as the
/// `unicode-normalization` crate computes it.
pub uninterp spec fn nfd_of(s: Seq<char>) -> Seq<char>;

/// Whether a character has `General_Category=Mark`, as the
/// `unicode-normalization` crate's tables say.
pub uninterp spec fn combining_mark_of(c: char) -> bool;

/// `UnicodeNormalization::nfd` of `unicode-normalization`, collected: the
/// result is named [`nfd_of`] of the input's characters and nothing more is
/// claimed of it.
#[verifier::external_body]
fn nfd_chars(s: &str) -> (r: Vec<char>)
    ensures
        r@ == nfd_of(s@),
{
    unicode_normalization::UnicodeNormalization::nfd(s).collect()
}

/// `unicode_normalization::char::is_combining_mark`: named [`combining_mark_of`].
#[verifier::external_body]
fn is_combining_mark(c: char) -> (r: bool)
    ensures
        r == combining_mark_of(c),
{
    unicode_normalization::char::is_combining_mark(c)
}

/// Full-width form of the characters that may appear in a group range.
pub open spec fn full_width_range_char(c: char) -> Option<char> {
    if c == '0' { Some('０') }
    else if c == '1' { Some('１') }
    else if c == '2' { Some('２') }
    else if c == '3' { Some('３') }
    else if c == '4' { Some('４') }
    else if c == '5' { Some('５') }
    else if c == '6' { Some('６') }
    else if c == '7' { Some('７') }
    else if c == '8' { Some('８') }
    else if c == '9' { Some('９') }
    else if c == '-' { Some('－') }
    else if c == '/' { Some('／') }
    else if c == ';' { Some('；') }
    else { None }
}

/// Full-width form of a group range: digits, `-`, `/` and `;` are mapped,
/// every other character is dropped.
pub open spec fn full_width_range_spec(s: Seq<char>) -> Seq<char>
    decreases s.len(),
{
    if s.len() == 0 {
        s
    } else {
        match full_width_range_char(s.last()) {
            Some(f) => full_width_range_spec(s.drop_last()).push(f),
            None => full_width_range_spec(s.drop_last()),
        }
    }
}

/// Full-width form of a group range (see [`full_width_range_spec`]).
pub fn full_width_range_chars(range: &[char]) -> (r: Vec<char>)
    ensures
        r@ == full_width_range_spec(range@),
{
    let mut r: Vec<char> = Vec::new();
    let mut i: usize = 0;
    while i < range.len()
        invariant
            i <= range@.len(),
            r@ == full_width_range_spec(range@.take(i as int)),
        decreases range@.len() - i,
    {
        assert(range@.take(i + 1).drop_last() =~= range@.take(i as int));
        let c = range[i];
        let m = match c {
            '0' => Some('０'),
            '1' => Some('１'),
            '2' => Some('２'),
            '3' => Some('３'),
            '4' => Some('４'),
            '5' => Some('５'),
            '6' => Some('６'),
            '7' => Some('７'),
            '8' => Some('８'),
            '9' => Some('９'),
            '-' => Some('－'),
            '/' => Some('／'),
            ';' => Some('；'),
            _ => None,
        };
        if let Some(f) = m {
            r.push(f);
        }
        i = i + 1;
    }
    assert(range@.take(range@.len() as int) =~= range@);
    r
}

/// Full-width form of a group range (see [`full_width_range_spec`]).
pub fn half_width_to_full_width_range(range: &str) -> (r: String)
    ensures
        r@ == full_width_range_spec(range@),
{
    let cs = str_to_chars(range);
    let f = full_width_range_chars(cs.as_slice());
    chars_to_string(f.as_slice())
}

/// UTF-16 code units of a character.
pub open spec fn utf16_units(c: char) -> nat {
    if c as u32 >= 0x10000 {
        2
    } else {
        1
    }
}

/// Length of a string in UTF-16 code units.
pub open spec fn utf16_len_spec(s: Seq<char>) -> nat
    decreases s.len(),
{
    if s.len() == 0 {
        0
    } else {
        utf16_len_spec(s.drop_last()) + utf16_units(s.last())
    }
}

/// Cells a character takes in the half-width TOC: its UTF-16 units, plus
/// one for voiced kana that split into a base and a mark.
pub open spec fn half_width_units(c: char) -> nat {
    utf16_units(c) + if multi_byte_half_width_spec(c) {
        1nat
    } else {
        0nat
    }
}

/// Length of a title in the half-width TOC.
pub open spec fn half_width_length_spec(s: Seq<char>) -> nat
    decreases s.len(),
{
    if s.len() == 0 {
        0
    } else {
        half_width_length_spec(s.drop_last()) + half_width_units(s.last())
    }
}

/// The UTF-16 length never exceeds twice the number of characters.
pub proof fn lemma_utf16_len_bound(s: Seq<char>)
    ensures
        utf16_len_spec(s) <= 2 * s.len(),
        half_width_length_spec(s) <= 3 * s.len(),
    decreases s.len(),
{
    if s.len() > 0 {
        lemma_utf16_len_bound(s.drop_last());
    }
}

/// Length of a string in UTF-16 code units.
pub fn utf16_len(s: &[char]) -> (n: usize)
    requires
        2 * s@.len() <= usize::MAX,
    ensures
        n == utf16_len_spec(s@),
{
    let mut n: usize = 0;
    let mut i: usize = 0;
    while i < s.len()
        invariant
            i <= s@.len(),
            2 * s@.len() <= usize::MAX,
            n == utf16_len_spec(s@.take(i as int)),
        decreases s@.len() - i,
    {
        assert(s@.take(i + 1).drop_last() =~= s@.take(i as int));
        proof {
            lemma_utf16_len_bound(s@.take(i + 1));
        }
        if s[i] as u32 >= 0x10000 {
            n = n + 2;
        } else {
            n = n + 1;
        }
        i = i + 1;
    }
    assert(s@.take(s@.len() as int) =~= s@);
    n
}

/// Length of a title in the half-width TOC (see [`half_width_length_spec`]).
pub fn half_width_length(s: &[char]) -> (n: usize)
    requires
        3 * s@.len() <= usize::MAX,
    ensures
        n == half_width_length_spec(s@),
{
    let mut n: usize = 0;
    let mut i: usize = 0;
    while i < s.len()
        invariant
            i <= s@.len(),
            3 * s@.len() <= usize::MAX,
            n == half_width_length_spec(s@.take(i as int)),
        decreases s@.len() - i,
    {
        assert(s@.take(i + 1).drop_last() =~= s@.take(i as int));
        proof {
            lemma_utf16_len_bound(s@.take(i + 1));
        }
        let c = s[i];
        let units: usize = if c as u32 >= 0x10000 {
            2
        } else {
            1
        };
        let extra: usize = if is_multi_byte_when_half_width_sanitized(c) {
            1
        } else {
            0
        };
        n = n + units + extra;
        i = i + 1;
    }
    assert(s@.take(s@.len() as int) =~= s@);
    n
}

/// Length of a title in the half-width TOC (see [`half_width_length_spec`]).
pub fn get_half_width_title_length(title: &str) -> (n: usize)
    requires
        3 * title@.len() <= usize::MAX,
    ensures
        n == half_width_length_spec(title@),
{
    let cs = str_to_chars(title);
    half_width_length(cs.as_slice())
}

/// Half-width form of a kana or Japanese punctuation character.
pub open spec fn kana_half_width_spec(c: char) -> Option<Seq<char>> {
    if c == '－' || c == 'ｰ' || c == 'ー' {
        Some(seq!['-'])
    } else if c == 'ァ' || c == 'ぁ' {
        Some(seq!['ｧ'])
    } else if c == 'ア' || c == 'あ' {
        Some(seq!['ｱ'])
    } else if c == 'ィ' || c == 'ぃ' {
        Some(seq!['ｨ'])
    } else if c == 'イ' || c == 'い' {
        Some(seq!['ｲ'])
    } else if c == 'ゥ' || c == 'ぅ' {
        Some(seq!['ｩ'])
    } else if c == 'ウ' || c == 'う' {
        Some(seq!['ｳ'])
    } else if c == 'ェ' || c == 'ぇ' {
        Some(seq!['ｪ'])
    } else if c == 'エ' || c == 'え' {
        Some(seq!['ｴ'])
    } else if c == 'ォ' || c == 'ぉ' {
        Some(seq!['ｫ'])
    } else if c == 'オ' || c == 'お' {
        Some(seq!['ｵ'])
    } else if c == 'カ' || c == 'か' {
        Some(seq!['ｶ'])
    } else if c == 'ガ' || c == 'が' {
        Some(seq!['ｶ', 'ﾞ'])
    } else if c == 'キ' || c == 'き' {
        Some(seq!['ｷ'])
    } else if c == 'ギ' || c == 'ぎ' {
        Some(seq!['ｷ', 'ﾞ'])
    } else if c == 'ク' || c == 'く' {
        Some(seq!['ｸ'])
    } else if c == 'グ' || c == 'ぐ' {
        Some(seq!['ｸ', 'ﾞ'])
    } else if c == 'ケ' || c == 'け' {
        Some(seq!['ｹ'])
    } else if c == 'ゲ' || c == 'げ' {
        Some(seq!['ｹ', 'ﾞ'])
    } else if c == 'コ' || c == 'こ' {
        Some(seq!['ｺ'])
    } else if c == 'ゴ' || c == 'ご' {
        Some(seq!['ｺ', 'ﾞ'])
    } else if c == 'サ' || c == 'さ' {
        Some(seq!['ｻ'])
    } else if c == 'ザ' || c == 'ざ' {
        Some(seq!['ｻ', 'ﾞ'])
    } else if c == 'シ' || c == 'し' {
        Some(seq!['ｼ'])
    } else if c == 'ジ' || c == 'じ' {
        Some(seq!['ｼ', 'ﾞ'])
    } else if c == 'ス' || c == 'す' {
        Some(seq!['ｽ'])
    } else if c == 'ズ' || c == 'ず' {
        Some(seq!['ｽ', 'ﾞ'])
    } else if c == 'セ' || c == 'せ' {
        Some(seq!['ｾ'])
    } else if c == 'ゼ' || c == 'ぜ' {
        Some(seq!['ｾ', 'ﾞ'])
    } else if c == 'ソ' || c == 'そ' {
        Some(seq!['ｿ'])
    } else if c == 'ゾ' || c == 'ぞ' {
        Some(seq!['ｿ', 'ﾞ'])
    } else if c == 'タ' || c == 'た' {
        Some(seq!['ﾀ'])
    } else if c == 'ダ' || c == 'だ' {
        Some(seq!['ﾀ', 'ﾞ'])
    } else if c == 'チ' || c == 'ち' {
        Some(seq!['ﾁ'])
    } else if c == 'ヂ' || c == 'ぢ' {
        Some(seq!['ﾁ', 'ﾞ'])
    } else if c == 'ッ' || c == 'っ' {
        Some(seq!['ｯ'])
    } else if c == 'ツ' || c == 'つ' {
        Some(seq!['ﾂ'])
    } else if c == 'ヅ' || c == 'づ' {
        Some(seq!['ﾂ', 'ﾞ'])
    } else if c == 'テ' || c == 'て' {
        Some(seq!['ﾃ'])
    } else if c == 'デ' || c == 'で' {
        Some(seq!['ﾃ', 'ﾞ'])
    } else if c == 'ト' || c == 'と' {
        Some(seq!['ﾄ'])
    } else if c == 'ド' || c == 'ど' {
        Some(seq!['ﾄ', 'ﾞ'])
    } else if c == 'ナ' || c == 'な' {
        Some(seq!['ﾅ'])
    } else if c == 'ニ' || c == 'に' {
        Some(seq!['ﾆ'])
    } else if c == 'ヌ' || c == 'ぬ' {
        Some(seq!['ﾇ'])
    } else if c == 'ネ' || c == 'ね' {
        Some(seq!['ﾈ'])
    } else if c == 'ノ' || c == 'の' {
        Some(seq!['ﾉ'])
    } else if c == 'ハ' || c == 'は' {
        Some(seq!['ﾊ'])
    } else if c == 'バ' || c == 'ば' {
        Some(seq!['ﾊ', 'ﾞ'])
    } else if c == 'パ' || c == 'ぱ' {
        Some(seq!['ﾊ', 'ﾟ'])
    } else if c == 'ヒ' || c == 'ひ' {
        Some(seq!['ﾋ'])
    } else if c == 'ビ' || c == 'び' {
        Some(seq!['ﾋ', 'ﾞ'])
    } else if c == 'ピ' || c == 'ぴ' {
        Some(seq!['ﾋ', 'ﾟ'])
    } else if c == 'フ' || c == 'ふ' {
        Some(seq!['ﾌ'])
    } else if c == 'ブ' || c == 'ぶ' {
        Some(seq!['ﾌ', 'ﾞ'])
    } else if c == 'プ' || c == 'ぷ' {
        Some(seq!['ﾌ', 'ﾟ'])
    } else if c == 'ヘ' || c == 'へ' {
        Some(seq!['ﾍ'])
    } else if c == 'ベ' || c == 'べ' {
        Some(seq!['ﾍ', 'ﾞ'])
    } else if c == 'ペ' || c == 'ぺ' {
        Some(seq!['ﾍ', 'ﾟ'])
    } else if c == 'ホ' || c == 'ほ' {
        Some(seq!['ﾎ'])
    } else if c == 'ボ' || c == 'ぼ' {
        Some(seq!['ﾎ', 'ﾞ'])
    } else if c == 'ポ' || c == 'ぽ' {
        Some(seq!['ﾎ', 'ﾟ'])
    } else if c == 'マ' || c == 'ま' {
        Some(seq!['ﾏ'])
    } else if c == 'ミ' || c == 'み' {
        Some(seq!['ﾐ'])
    } else if c == 'ム' || c == 'む' {
        Some(seq!['ﾑ'])
    } else if c == 'メ' || c == 'め' {
        Some(seq!['ﾒ'])
    } else if c == 'モ' || c == 'も' {
        Some(seq!['ﾓ'])
    } else if c == 'ャ' || c == 'ゃ' {
        Some(seq!['ｬ'])
    } else if c == 'ヤ' || c == 'や' {
        Some(seq!['ﾔ'])
    } else if c == 'ュ' || c == 'ゅ' {
        Some(seq!['ｭ'])
    } else if c == 'ユ' || c == 'ゆ' {
        Some(seq!['ﾕ'])
    } else if c == 'ョ' || c == 'ょ' {
        Some(seq!['ｮ'])
    } else if c == 'ヨ' || c == 'よ' {
        Some(seq!['ﾖ'])
    } else if c == 'ラ' || c == 'ら' {
        Some(seq!['ﾗ'])
    } else if c == 'リ' || c == 'り' {
        Some(seq!['ﾘ'])
    } else if c == 'ル' || c == 'る' {
        Some(seq!['ﾙ'])
    } else if c == 'レ' || c == 'れ' {
        Some(seq!['ﾚ'])
    } else if c == 'ロ' || c == 'ろ' {
        Some(seq!['ﾛ'])
    } else if c == 'ワ' || c == 'わ' {
        Some(seq!['ﾜ'])
    } else if c == 'ヲ' || c == 'を' {
        Some(seq!['ｦ'])
    } else if c == 'ン' || c == 'ん' {
        Some(seq!['ﾝ'])
    } else if c == 'ヮ' || c == 'ゎ' {
        Some(seq!['ヮ'])
    } else if c == 'ヰ' || c == 'ゐ' {
        Some(seq!['ヰ'])
    } else if c == 'ヱ' || c == 'ゑ' {
        Some(seq!['ヱ'])
    } else if c == 'ヵ' || c == 'ゕ' {
        Some(seq!['ヵ'])
    } else if c == 'ヶ' || c == 'ゖ' {
        Some(seq!['ヶ'])
    } else if c == 'ヴ' || c == 'ゔ' {
        Some(seq!['ｳ', 'ﾞ'])
    } else if c == 'ヽ' || c == 'ゝ' {
        Some(seq!['ヽ'])
    } else if c == 'ヾ' || c == 'ゞ' {
        Some(seq!['ヾ'])
    } else if c == '・' {
        Some(seq!['･'])
    } else if c == '「' {
        Some(seq!['｢'])
    } else if c == '」' {
        Some(seq!['｣'])
    } else if c == '。' {
        Some(seq!['｡'])
    } else if c == '、' {
        Some(seq!['､'])
    } else {
        None
    }
}

/// Half-width form of a kana or Japanese punctuation character.
fn kana_to_half_width(c: char) -> (r: Option<Vec<char>>)
    ensures
        match kana_half_width_spec(c) {
            Some(s) => r matches Some(v) && v@ == s,
            None => r is None,
        },
{
    match c {
        '－' | 'ｰ' | 'ー' => {
            let v = vec!['-'];
            assert(v@ =~= seq!['-']);
            Some(v)
        },
        'ァ' | 'ぁ' => {
            let v = vec!['ｧ'];
            assert(v@ =~= seq!['ｧ']);
            Some(v)
        },
        'ア' | 'あ' => {
            let v = vec!['ｱ'];
            assert(v@ =~= seq!['ｱ']);
            Some(v)
        },
        'ィ' | 'ぃ' => {
            let v = vec!['ｨ'];
            assert(v@ =~= seq!['ｨ']);
            Some(v)
        },
        'イ' | 'い' => {
            let v = vec!['ｲ'];
            assert(v@ =~= seq!['ｲ']);
            Some(v)
        },
        'ゥ' | 'ぅ' => {
            let v = vec!['ｩ'];
            assert(v@ =~= seq!['ｩ']);
            Some(v)
        },
        'ウ' | 'う' => {
            let v = vec!['ｳ'];
            assert(v@ =~= seq!['ｳ']);
            Some(v)
        },
        'ェ' | 'ぇ' => {
            let v = vec!['ｪ'];
            assert(v@ =~= seq!['ｪ']);
            Some(v)
        },
        'エ' | 'え' => {
            let v = vec!['ｴ'];
            assert(v@ =~= seq!['ｴ']);
            Some(v)
        },
        'ォ' | 'ぉ' => {
            let v = vec!['ｫ'];
            assert(v@ =~= seq!['ｫ']);
            Some(v)
        },
        'オ' | 'お' => {
            let v = vec!['ｵ'];
            assert(v@ =~= seq!['ｵ']);
            Some(v)
        },
        'カ' | 'か' => {
            let v = vec!['ｶ'];
            assert(v@ =~= seq!['ｶ']);
            Some(v)
        },
        'ガ' | 'が' => {
            let v = vec!['ｶ', 'ﾞ'];
            assert(v@ =~= seq!['ｶ', 'ﾞ']);
            Some(v)
        },
        'キ' | 'き' => {
            let v = vec!['ｷ'];
            assert(v@ =~= seq!['ｷ']);
            Some(v)
        },
        'ギ' | 'ぎ' => {
            let v = vec!['ｷ', 'ﾞ'];
            assert(v@ =~= seq!['ｷ', 'ﾞ']);
            Some(v)
        },
        'ク' | 'く' => {
            let v = vec!['ｸ'];
            assert(v@ =~= seq!['ｸ']);
            Some(v)
        },
        'グ' | 'ぐ' => {
            let v = vec!['ｸ', 'ﾞ'];
            assert(v@ =~= seq!['ｸ', 'ﾞ']);
            Some(v)
        },
        'ケ' | 'け' => {
            let v = vec!['ｹ'];
            assert(v@ =~= seq!['ｹ']);
            Some(v)
        },
        'ゲ' | 'げ' => {
            let v = vec!['ｹ', 'ﾞ'];
            assert(v@ =~= seq!['ｹ', 'ﾞ']);
            Some(v)
        },
        'コ' | 'こ' => {
            let v = vec!['ｺ'];
            assert(v@ =~= seq!['ｺ']);
            Some(v)
        },
        'ゴ' | 'ご' => {
            let v = vec!['ｺ', 'ﾞ'];
            assert(v@ =~= seq!['ｺ', 'ﾞ']);
            Some(v)
        },
        'サ' | 'さ' => {
            let v = vec!['ｻ'];
            assert(v@ =~= seq!['ｻ']);
            Some(v)
        },
        'ザ' | 'ざ' => {
            let v = vec!['ｻ', 'ﾞ'];
            assert(v@ =~= seq!['ｻ', 'ﾞ']);
            Some(v)
        },
        'シ' | 'し' => {
            let v = vec!['ｼ'];
            assert(v@ =~= seq!['ｼ']);
            Some(v)
        },
        'ジ' | 'じ' => {
            let v = vec!['ｼ', 'ﾞ'];
            assert(v@ =~= seq!['ｼ', 'ﾞ']);
            Some(v)
        },
        'ス' | 'す' => {
            let v = vec!['ｽ'];
            assert(v@ =~= seq!['ｽ']);
            Some(v)
        },
        'ズ' | 'ず' => {
            let v = vec!['ｽ', 'ﾞ'];
            assert(v@ =~= seq!['ｽ', 'ﾞ']);
            Some(v)
        },
        'セ' | 'せ' => {
            let v = vec!['ｾ'];
            assert(v@ =~= seq!['ｾ']);
            Some(v)
        },
        'ゼ' | 'ぜ' => {
            let v = vec!['ｾ', 'ﾞ'];
            assert(v@ =~= seq!['ｾ', 'ﾞ']);
            Some(v)
        },
        'ソ' | 'そ' => {
            let v = vec!['ｿ'];
            assert(v@ =~= seq!['ｿ']);
            Some(v)
        },
        'ゾ' | 'ぞ' => {
            let v = vec!['ｿ', 'ﾞ'];
            assert(v@ =~= seq!['ｿ', 'ﾞ']);
            Some(v)
        },
        'タ' | 'た' => {
            let v = vec!['ﾀ'];
            assert(v@ =~= seq!['ﾀ']);
            Some(v)
        },
        'ダ' | 'だ' => {
            let v = vec!['ﾀ', 'ﾞ'];
            assert(v@ =~= seq!['ﾀ', 'ﾞ']);
            Some(v)
        },
        'チ' | 'ち' => {
            let v = vec!['ﾁ'];
            assert(v@ =~= seq!['ﾁ']);
            Some(v)
        },
        'ヂ' | 'ぢ' => {
            let v = vec!['ﾁ', 'ﾞ'];
            assert(v@ =~= seq!['ﾁ', 'ﾞ']);
            Some(v)
        },
        'ッ' | 'っ' => {
            let v = vec!['ｯ'];
            assert(v@ =~= seq!['ｯ']);
            Some(v)
        },
        'ツ' | 'つ' => {
            let v = vec!['ﾂ'];
            assert(v@ =~= seq!['ﾂ']);
            Some(v)
        },
        'ヅ' | 'づ' => {
            let v = vec!['ﾂ', 'ﾞ'];
            assert(v@ =~= seq!['ﾂ', 'ﾞ']);
            Some(v)
        },
        'テ' | 'て' => {
            let v = vec!['ﾃ'];
            assert(v@ =~= seq!['ﾃ']);
            Some(v)
        },
        'デ' | 'で' => {
            let v = vec!['ﾃ', 'ﾞ'];
            assert(v@ =~= seq!['ﾃ', 'ﾞ']);
            Some(v)
        },
        'ト' | 'と' => {
            let v = vec!['ﾄ'];
            assert(v@ =~= seq!['ﾄ']);
            Some(v)
        },
        'ド' | 'ど' => {
            let v = vec!['ﾄ', 'ﾞ'];
            assert(v@ =~= seq!['ﾄ', 'ﾞ']);
            Some(v)
        },
        'ナ' | 'な' => {
            let v = vec!['ﾅ'];
            assert(v@ =~= seq!['ﾅ']);
            Some(v)
        },
        'ニ' | 'に' => {
            let v = vec!['ﾆ'];
            assert(v@ =~= seq!['ﾆ']);
            Some(v)
        },
        'ヌ' | 'ぬ' => {
            let v = vec!['ﾇ'];
            assert(v@ =~= seq!['ﾇ']);
            Some(v)
        },
        'ネ' | 'ね' => {
            let v = vec!['ﾈ'];
            assert(v@ =~= seq!['ﾈ']);
            Some(v)
        },
        'ノ' | 'の' => {
            let v = vec!['ﾉ'];
            assert(v@ =~= seq!['ﾉ']);
            Some(v)
        },
        'ハ' | 'は' => {
            let v = vec!['ﾊ'];
            assert(v@ =~= seq!['ﾊ']);
            Some(v)
        },
        'バ' | 'ば' => {
            let v = vec!['ﾊ', 'ﾞ'];
            assert(v@ =~= seq!['ﾊ', 'ﾞ']);
            Some(v)
        },
        'パ' | 'ぱ' => {
            let v = vec!['ﾊ', 'ﾟ'];
            assert(v@ =~= seq!['ﾊ', 'ﾟ']);
            Some(v)
        },
        'ヒ' | 'ひ' => {
            let v = vec!['ﾋ'];
            assert(v@ =~= seq!['ﾋ']);
            Some(v)
        },
        'ビ' | 'び' => {
            let v = vec!['ﾋ', 'ﾞ'];
            assert(v@ =~= seq!['ﾋ', 'ﾞ']);
            Some(v)
        },
        'ピ' | 'ぴ' => {
            let v = vec!['ﾋ', 'ﾟ'];
            assert(v@ =~= seq!['ﾋ', 'ﾟ']);
            Some(v)
        },
        'フ' | 'ふ' => {
            let v = vec!['ﾌ'];
            assert(v@ =~= seq!['ﾌ']);
            Some(v)
        },
        'ブ' | 'ぶ' => {
            let v = vec!['ﾌ', 'ﾞ'];
            assert(v@ =~= seq!['ﾌ', 'ﾞ']);
            Some(v)
        },
        'プ' | 'ぷ' => {
            let v = vec!['ﾌ', 'ﾟ'];
            assert(v@ =~= seq!['ﾌ', 'ﾟ']);
            Some(v)
        },
        'ヘ' | 'へ' => {
            let v = vec!['ﾍ'];
            assert(v@ =~= seq!['ﾍ']);
            Some(v)
        },
        'ベ' | 'べ' => {
            let v = vec!['ﾍ', 'ﾞ'];
            assert(v@ =~= seq!['ﾍ', 'ﾞ']);
            Some(v)
        },
        'ペ' | 'ぺ' => {
            let v = vec!['ﾍ', 'ﾟ'];
            assert(v@ =~= seq!['ﾍ', 'ﾟ']);
            Some(v)
        },
        'ホ' | 'ほ' => {
            let v = vec!['ﾎ'];
            assert(v@ =~= seq!['ﾎ']);
            Some(v)
        },
        'ボ' | 'ぼ' => {
            let v = vec!['ﾎ', 'ﾞ'];
            assert(v@ =~= seq!['ﾎ', 'ﾞ']);
            Some(v)
        },
        'ポ' | 'ぽ' => {
            let v = vec!['ﾎ', 'ﾟ'];
            assert(v@ =~= seq!['ﾎ', 'ﾟ']);
            Some(v)
        },
        'マ' | 'ま' => {
            let v = vec!['ﾏ'];
            assert(v@ =~= seq!['ﾏ']);
            Some(v)
        },
        'ミ' | 'み' => {
            let v = vec!['ﾐ'];
            assert(v@ =~= seq!['ﾐ']);
            Some(v)
        },
        'ム' | 'む' => {
            let v = vec!['ﾑ'];
            assert(v@ =~= seq!['ﾑ']);
            Some(v)
        },
        'メ' | 'め' => {
            let v = vec!['ﾒ'];
            assert(v@ =~= seq!['ﾒ']);
            Some(v)
        },
        'モ' | 'も' => {
            let v = vec!['ﾓ'];
            assert(v@ =~= seq!['ﾓ']);
            Some(v)
        },
        'ャ' | 'ゃ' => {
            let v = vec!['ｬ'];
            assert(v@ =~= seq!['ｬ']);
            Some(v)
        },
        'ヤ' | 'や' => {
            let v = vec!['ﾔ'];
            assert(v@ =~= seq!['ﾔ']);
            Some(v)
        },
        'ュ' | 'ゅ' => {
            let v = vec!['ｭ'];
            assert(v@ =~= seq!['ｭ']);
            Some(v)
        },
        'ユ' | 'ゆ' => {
            let v = vec!['ﾕ'];
            assert(v@ =~= seq!['ﾕ']);
            Some(v)
        },
        'ョ' | 'ょ' => {
            let v = vec!['ｮ'];
            assert(v@ =~= seq!['ｮ']);
            Some(v)
        },
        'ヨ' | 'よ' => {
            let v = vec!['ﾖ'];
            assert(v@ =~= seq!['ﾖ']);
            Some(v)
        },
        'ラ' | 'ら' => {
            let v = vec!['ﾗ'];
            assert(v@ =~= seq!['ﾗ']);
            Some(v)
        },
        'リ' | 'り' => {
            let v = vec!['ﾘ'];
            assert(v@ =~= seq!['ﾘ']);
            Some(v)
        },
        'ル' | 'る' => {
            let v = vec!['ﾙ'];
            assert(v@ =~= seq!['ﾙ']);
            Some(v)
        },
        'レ' | 'れ' => {
            let v = vec!['ﾚ'];
            assert(v@ =~= seq!['ﾚ']);
            Some(v)
        },
        'ロ' | 'ろ' => {
            let v = vec!['ﾛ'];
            assert(v@ =~= seq!['ﾛ']);
            Some(v)
        },
        'ワ' | 'わ' => {
            let v = vec!['ﾜ'];
            assert(v@ =~= seq!['ﾜ']);
            Some(v)
        },
        'ヲ' | 'を' => {
            let v = vec!['ｦ'];
            assert(v@ =~= seq!['ｦ']);
            Some(v)
        },
        'ン' | 'ん' => {
            let v = vec!['ﾝ'];
            assert(v@ =~= seq!['ﾝ']);
            Some(v)
        },
        'ヮ' | 'ゎ' => {
            let v = vec!['ヮ'];
            assert(v@ =~= seq!['ヮ']);
            Some(v)
        },
        'ヰ' | 'ゐ' => {
            let v = vec!['ヰ'];
            assert(v@ =~= seq!['ヰ']);
            Some(v)
        },
        'ヱ' | 'ゑ' => {
            let v = vec!['ヱ'];
            assert(v@ =~= seq!['ヱ']);
            Some(v)
        },
        'ヵ' | 'ゕ' => {
            let v = vec!['ヵ'];
            assert(v@ =~= seq!['ヵ']);
            Some(v)
        },
        'ヶ' | 'ゖ' => {
            let v = vec!['ヶ'];
            assert(v@ =~= seq!['ヶ']);
            Some(v)
        },
        'ヴ' | 'ゔ' => {
            let v = vec!['ｳ', 'ﾞ'];
            assert(v@ =~= seq!['ｳ', 'ﾞ']);
            Some(v)
        },
        'ヽ' | 'ゝ' => {
            let v = vec!['ヽ'];
            assert(v@ =~= seq!['ヽ']);
            Some(v)
        },
        'ヾ' | 'ゞ' => {
            let v = vec!['ヾ'];
            assert(v@ =~= seq!['ヾ']);
            Some(v)
        },
        '・' => {
            let v = vec!['･'];
            assert(v@ =~= seq!['･']);
            Some(v)
        },
        '「' => {
            let v = vec!['｢'];
            assert(v@ =~= seq!['｢']);
            Some(v)
        },
        '」' => {
            let v = vec!['｣'];
            assert(v@ =~= seq!['｣']);
            Some(v)
        },
        '。' => {
            let v = vec!['｡'];
            assert(v@ =~= seq!['｡']);
            Some(v)
        },
        '、' => {
            let v = vec!['､'];
            assert(v@ =~= seq!['､']);
            Some(v)
        },
        _ => None,
    }
}

/// Full-width form of a half-width katakana or punctuation character.
pub open spec fn full_width_jp_table_spec(c: char) -> Option<Seq<char>> {
    if c == 'ｧ' {
        Some(seq!['ァ'])
    } else if c == 'ｱ' {
        Some(seq!['ア'])
    } else if c == 'ｨ' {
        Some(seq!['ィ'])
    } else if c == 'ｲ' {
        Some(seq!['イ'])
    } else if c == 'ｩ' {
        Some(seq!['ゥ'])
    } else if c == 'ｳ' {
        Some(seq!['ウ'])
    } else if c == 'ｪ' {
        Some(seq!['ェ'])
    } else if c == 'ｴ' {
        Some(seq!['エ'])
    } else if c == 'ｫ' {
        Some(seq!['ォ'])
    } else if c == 'ｵ' {
        Some(seq!['オ'])
    } else if c == 'ｶ' {
        Some(seq!['カ'])
    } else if c == 'ｷ' {
        Some(seq!['キ'])
    } else if c == 'ｸ' {
        Some(seq!['ク'])
    } else if c == 'ｹ' {
        Some(seq!['ケ'])
    } else if c == 'ｺ' {
        Some(seq!['コ'])
    } else if c == 'ｻ' {
        Some(seq!['サ'])
    } else if c == 'ｼ' {
        Some(seq!['シ'])
    } else if c == 'ｽ' {
        Some(seq!['ス'])
    } else if c == 'ｾ' {
        Some(seq!['セ'])
    } else if c == 'ｿ' {
        Some(seq!['ソ'])
    } else if c == 'ﾀ' {
        Some(seq!['タ'])
    } else if c == 'ﾁ' {
        Some(seq!['チ'])
    } else if c == 'ｯ' {
        Some(seq!['ッ'])
    } else if c == 'ﾂ' {
        Some(seq!['ツ'])
    } else if c == 'ﾃ' {
        Some(seq!['テ'])
    } else if c == 'ﾄ' {
        Some(seq!['ト'])
    } else if c == 'ﾅ' {
        Some(seq!['ナ'])
    } else if c == 'ﾆ' {
        Some(seq!['ニ'])
    } else if c == 'ﾇ' {
        Some(seq!['ヌ'])
    } else if c == 'ﾈ' {
        Some(seq!['ネ'])
    } else if c == 'ﾉ' {
        Some(seq!['ノ'])
    } else if c == 'ﾊ' {
        Some(seq!['ハ'])
    } else if c == 'ﾋ' {
        Some(seq!['ヒ'])
    } else if c == 'ﾌ' {
        Some(seq!['フ'])
    } else if c == 'ﾍ' {
        Some(seq!['ヘ'])
    } else if c == 'ﾎ' {
        Some(seq!['ホ'])
    } else if c == 'ﾏ' {
        Some(seq!['マ'])
    } else if c == 'ﾐ' {
        Some(seq!['ミ'])
    } else if c == 'ﾑ' {
        Some(seq!['ム'])
    } else if c == 'ﾒ' {
        Some(seq!['メ'])
    } else if c == 'ﾓ' {
        Some(seq!['モ'])
    } else if c == 'ｬ' {
        Some(seq!['ャ'])
    } else if c == 'ﾔ' {
        Some(seq!['ヤ'])
    } else if c == 'ｭ' {
        Some(seq!['ュ'])
    } else if c == 'ﾕ' {
        Some(seq!['ユ'])
    } else if c == 'ｮ' {
        Some(seq!['ョ'])
    } else if c == 'ﾖ' {
        Some(seq!['ヨ'])
    } else if c == 'ﾗ' {
        Some(seq!['ラ'])
    } else if c == 'ﾘ' {
        Some(seq!['リ'])
    } else if c == 'ﾙ' {
        Some(seq!['ル'])
    } else if c == 'ﾚ' {
        Some(seq!['レ'])
    } else if c == 'ﾛ' {
        Some(seq!['ロ'])
    } else if c == 'ﾜ' {
        Some(seq!['ワ'])
    } else if c == 'ｦ' {
        Some(seq!['ヲ'])
    } else if c == 'ﾝ' {
        Some(seq!['ン'])
    } else if c == 'ｰ' {
        Some(seq!['ー'])
    } else if c == 'ヮ' {
        Some(seq!['ヮ'])
    } else if c == 'ヰ' {
        Some(seq!['ヰ'])
    } else if c == 'ヱ' {
        Some(seq!['ヱ'])
    } else if c == 'ヵ' {
        Some(seq!['ヵ'])
    } else if c == 'ヶ' {
        Some(seq!['ヶ'])
    } else if c == 'ヽ' {
        Some(seq!['ヽ'])
    } else if c == 'ヾ' {
        Some(seq!['ヾ'])
    } else if c == '･' {
        Some(seq!['・'])
    } else if c == '｢' {
        Some(seq!['「'])
    } else if c == '｣' {
        Some(seq!['」'])
    } else if c == '｡' {
        Some(seq!['。'])
    } else if c == '､' {
        Some(seq!['、'])
    } else {
        None
    }
}

/// Full-width form of a half-width katakana or punctuation character.
fn to_full_width_jp_table(c: char) -> (r: Option<Vec<char>>)
    ensures
        match full_width_jp_table_spec(c) {
            Some(s) => r matches Some(v) && v@ == s,
            None => r is None,
        },
{
    match c {
        'ｧ' => {
            let v = vec!['ァ'];
            assert(v@ =~= seq!['ァ']);
            Some(v)
        },
        'ｱ' => {
            let v = vec!['ア'];
            assert(v@ =~= seq!['ア']);
            Some(v)
        },
        'ｨ' => {
            let v = vec!['ィ'];
            assert(v@ =~= seq!['ィ']);
            Some(v)
        },
        'ｲ' => {
            let v = vec!['イ'];
            assert(v@ =~= seq!['イ']);
            Some(v)
        },
        'ｩ' => {
            let v = vec!['ゥ'];
            assert(v@ =~= seq!['ゥ']);
            Some(v)
        },
        'ｳ' => {
            let v = vec!['ウ'];
            assert(v@ =~= seq!['ウ']);
            Some(v)
        },
        'ｪ' => {
            let v = vec!['ェ'];
            assert(v@ =~= seq!['ェ']);
            Some(v)
        },
        'ｴ' => {
            let v = vec!['エ'];
            assert(v@ =~= seq!['エ']);
            Some(v)
        },
        'ｫ' => {
            let v = vec!['ォ'];
            assert(v@ =~= seq!['ォ']);
            Some(v)
        },
        'ｵ' => {
            let v = vec!['オ'];
            assert(v@ =~= seq!['オ']);
            Some(v)
        },
        'ｶ' => {
            let v = vec!['カ'];
            assert(v@ =~= seq!['カ']);
            Some(v)
        },
        'ｷ' => {
            let v = vec!['キ'];
            assert(v@ =~= seq!['キ']);
            Some(v)
        },
        'ｸ' => {
            let v = vec!['ク'];
            assert(v@ =~= seq!['ク']);
            Some(v)
        },
        'ｹ' => {
            let v = vec!['ケ'];
            assert(v@ =~= seq!['ケ']);
            Some(v)
        },
        'ｺ' => {
            let v = vec!['コ'];
            assert(v@ =~= seq!['コ']);
            Some(v)
        },
        'ｻ' => {
            let v = vec!['サ'];
            assert(v@ =~= seq!['サ']);
            Some(v)
        },
        'ｼ' => {
            let v = vec!['シ'];
            assert(v@ =~= seq!['シ']);
            Some(v)
        },
        'ｽ' => {
            let v = vec!['ス'];
            assert(v@ =~= seq!['ス']);
            Some(v)
        },
        'ｾ' => {
            let v = vec!['セ'];
            assert(v@ =~= seq!['セ']);
            Some(v)
        },
        'ｿ' => {
            let v = vec!['ソ'];
            assert(v@ =~= seq!['ソ']);
            Some(v)
        },
        'ﾀ' => {
            let v = vec!['タ'];
            assert(v@ =~= seq!['タ']);
            Some(v)
        },
        'ﾁ' => {
            let v = vec!['チ'];
            assert(v@ =~= seq!['チ']);
            Some(v)
        },
        'ｯ' => {
            let v = vec!['ッ'];
            assert(v@ =~= seq!['ッ']);
            Some(v)
        },
        'ﾂ' => {
            let v = vec!['ツ'];
            assert(v@ =~= seq!['ツ']);
            Some(v)
        },
        'ﾃ' => {
            let v = vec!['テ'];
            assert(v@ =~= seq!['テ']);
            Some(v)
        },
        'ﾄ' => {
            let v = vec!['ト'];
            assert(v@ =~= seq!['ト']);
            Some(v)
        },
        'ﾅ' => {
            let v = vec!['ナ'];
            assert(v@ =~= seq!['ナ']);
            Some(v)
        },
        'ﾆ' => {
            let v = vec!['ニ'];
            assert(v@ =~= seq!['ニ']);
            Some(v)
        },
        'ﾇ' => {
            let v = vec!['ヌ'];
            assert(v@ =~= seq!['ヌ']);
            Some(v)
        },
        'ﾈ' => {
            let v = vec!['ネ'];
            assert(v@ =~= seq!['ネ']);
            Some(v)
        },
        'ﾉ' => {
            let v = vec!['ノ'];
            assert(v@ =~= seq!['ノ']);
            Some(v)
        },
        'ﾊ' => {
            let v = vec!['ハ'];
            assert(v@ =~= seq!['ハ']);
            Some(v)
        },
        'ﾋ' => {
            let v = vec!['ヒ'];
            assert(v@ =~= seq!['ヒ']);
            Some(v)
        },
        'ﾌ' => {
            let v = vec!['フ'];
            assert(v@ =~= seq!['フ']);
            Some(v)
        },
        'ﾍ' => {
            let v = vec!['ヘ'];
            assert(v@ =~= seq!['ヘ']);
            Some(v)
        },
        'ﾎ' => {
            let v = vec!['ホ'];
            assert(v@ =~= seq!['ホ']);
            Some(v)
        },
        'ﾏ' => {
            let v = vec!['マ'];
            assert(v@ =~= seq!['マ']);
            Some(v)
        },
        'ﾐ' => {
            let v = vec!['ミ'];
            assert(v@ =~= seq!['ミ']);
            Some(v)
        },
        'ﾑ' => {
            let v = vec!['ム'];
            assert(v@ =~= seq!['ム']);
            Some(v)
        },
        'ﾒ' => {
            let v = vec!['メ'];
            assert(v@ =~= seq!['メ']);
            Some(v)
        },
        'ﾓ' => {
            let v = vec!['モ'];
            assert(v@ =~= seq!['モ']);
            Some(v)
        },
        'ｬ' => {
            let v = vec!['ャ'];
            assert(v@ =~= seq!['ャ']);
            Some(v)
        },
        'ﾔ' => {
            let v = vec!['ヤ'];
            assert(v@ =~= seq!['ヤ']);
            Some(v)
        },
        'ｭ' => {
            let v = vec!['ュ'];
            assert(v@ =~= seq!['ュ']);
            Some(v)
        },
        'ﾕ' => {
            let v = vec!['ユ'];
            assert(v@ =~= seq!['ユ']);
            Some(v)
        },
        'ｮ' => {
            let v = vec!['ョ'];
            assert(v@ =~= seq!['ョ']);
            Some(v)
        },
        'ﾖ' => {
            let v = vec!['ヨ'];
            assert(v@ =~= seq!['ヨ']);
            Some(v)
        },
        'ﾗ' => {
            let v = vec!['ラ'];
            assert(v@ =~= seq!['ラ']);
            Some(v)
        },
        'ﾘ' => {
            let v = vec!['リ'];
            assert(v@ =~= seq!['リ']);
            Some(v)
        },
        'ﾙ' => {
            let v = vec!['ル'];
            assert(v@ =~= seq!['ル']);
            Some(v)
        },
        'ﾚ' => {
            let v = vec!['レ'];
            assert(v@ =~= seq!['レ']);
            Some(v)
        },
        'ﾛ' => {
            let v = vec!['ロ'];
            assert(v@ =~= seq!['ロ']);
            Some(v)
        },
        'ﾜ' => {
            let v = vec!['ワ'];
            assert(v@ =~= seq!['ワ']);
            Some(v)
        },
        'ｦ' => {
            let v = vec!['ヲ'];
            assert(v@ =~= seq!['ヲ']);
            Some(v)
        },
        'ﾝ' => {
            let v = vec!['ン'];
            assert(v@ =~= seq!['ン']);
            Some(v)
        },
        'ｰ' => {
            let v = vec!['ー'];
            assert(v@ =~= seq!['ー']);
            Some(v)
        },
        'ヮ' => {
            let v = vec!['ヮ'];
            assert(v@ =~= seq!['ヮ']);
            Some(v)
        },
        'ヰ' => {
            let v = vec!['ヰ'];
            assert(v@ =~= seq!['ヰ']);
            Some(v)
        },
        'ヱ' => {
            let v = vec!['ヱ'];
            assert(v@ =~= seq!['ヱ']);
            Some(v)
        },
        'ヵ' => {
            let v = vec!['ヵ'];
            assert(v@ =~= seq!['ヵ']);
            Some(v)
        },
        'ヶ' => {
            let v = vec!['ヶ'];
            assert(v@ =~= seq!['ヶ']);
            Some(v)
        },
        'ヽ' => {
            let v = vec!['ヽ'];
            assert(v@ =~= seq!['ヽ']);
            Some(v)
        },
        'ヾ' => {
            let v = vec!['ヾ'];
            assert(v@ =~= seq!['ヾ']);
            Some(v)
        },
        '･' => {
            let v = vec!['・'];
            assert(v@ =~= seq!['・']);
            Some(v)
        },
        '｢' => {
            let v = vec!['「'];
            assert(v@ =~= seq!['「']);
            Some(v)
        },
        '｣' => {
            let v = vec!['」'];
            assert(v@ =~= seq!['」']);
            Some(v)
        },
        '｡' => {
            let v = vec!['。'];
            assert(v@ =~= seq!['。']);
            Some(v)
        },
        '､' => {
            let v = vec!['、'];
            assert(v@ =~= seq!['、']);
            Some(v)
        },
        _ => None,
    }
}

/// Latin transliteration of a Cyrillic letter.
pub open spec fn russian_spec(c: char) -> Option<Seq<char>> {
    if c == 'а' {
        Some(seq!['a'])
    } else if c == 'б' {
        Some(seq!['b'])
    } else if c == 'в' {
        Some(seq!['v'])
    } else if c == 'г' {
        Some(seq!['g'])
    } else if c == 'д' {
        Some(seq!['d'])
    } else if c == 'е' || c == 'ё' {
        Some(seq!['e'])
    } else if c == 'ж' {
        Some(seq!['z', 'h'])
    } else if c == 'з' {
        Some(seq!['z'])
    } else if c == 'и' || c == 'й' {
        Some(seq!['i'])
    } else if c == 'к' {
        Some(seq!['k'])
    } else if c == 'л' {
        Some(seq!['l'])
    } else if c == 'м' {
        Some(seq!['m'])
    } else if c == 'н' {
        Some(seq!['n'])
    } else if c == 'о' {
        Some(seq!['o'])
    } else if c == 'п' {
        Some(seq!['p'])
    } else if c == 'р' {
        Some(seq!['r'])
    } else if c == 'с' {
        Some(seq!['s'])
    } else if c == 'т' {
        Some(seq!['t'])
    } else if c == 'у' {
        Some(seq!['u'])
    } else if c == 'ф' {
        Some(seq!['f'])
    } else if c == 'х' {
        Some(seq!['k', 'h'])
    } else if c == 'ц' {
        Some(seq!['t', 'c'])
    } else if c == 'ч' {
        Some(seq!['c', 'h'])
    } else if c == 'ш' {
        Some(seq!['s', 'h'])
    } else if c == 'щ' {
        Some(seq!['s', 'h', 'c', 'h'])
    } else if c == 'ъ' {
        Some(Seq::empty())
    } else if c == 'ы' {
        Some(seq!['y'])
    } else if c == 'ь' {
        Some(seq!['\''])
    } else if c == 'э' {
        Some(seq!['e'])
    } else if c == 'ю' {
        Some(seq!['i', 'u'])
    } else if c == 'я' {
        Some(seq!['i', 'a'])
    } else if c == 'А' {
        Some(seq!['A'])
    } else if c == 'Б' {
        Some(seq!['B'])
    } else if c == 'В' {
        Some(seq!['V'])
    } else if c == 'Г' {
        Some(seq!['G'])
    } else if c == 'Д' {
        Some(seq!['D'])
    } else if c == 'Е' || c == 'Ё' {
        Some(seq!['E'])
    } else if c == 'Ж' {
        Some(seq!['Z', 'h'])
    } else if c == 'З' {
        Some(seq!['Z'])
    } else if c == 'И' || c == 'Й' {
        Some(seq!['I'])
    } else if c == 'К' {
        Some(seq!['K'])
    } else if c == 'Л' {
        Some(seq!['L'])
    } else if c == 'М' {
        Some(seq!['M'])
    } else if c == 'Н' {
        Some(seq!['N'])
    } else if c == 'О' {
        Some(seq!['O'])
    } else if c == 'П' {
        Some(seq!['P'])
    } else if c == 'Р' {
        Some(seq!['R'])
    } else if c == 'С' {
        Some(seq!['S'])
    } else if c == 'Т' {
        Some(seq!['T'])
    } else if c == 'У' {
        Some(seq!['U'])
    } else if c == 'Ф' {
        Some(seq!['F'])
    } else if c == 'Х' {
        Some(seq!['K', 'h'])
    } else if c == 'Ц' {
        Some(seq!['T', 'c'])
    } else if c == 'Ч' {
        Some(seq!['C', 'h'])
    } else if c == 'Ш' {
        Some(seq!['S', 'h'])
    } else if c == 'Щ' {
        Some(seq!['S', 'h', 'c', 'h'])
    } else if c == 'Ъ' {
        Some(Seq::empty())
    } else if c == 'Ы' {
        Some(seq!['Y'])
    } else if c == 'Ь' {
        Some(seq!['\''])
    } else if c == 'Э' {
        Some(seq!['E'])
    } else if c == 'Ю' {
        Some(seq!['I', 'u'])
    } else if c == 'Я' {
        Some(seq!['I', 'a'])
    } else {
        None
    }
}

/// Latin transliteration of a Cyrillic letter.
fn map_russian(c: char) -> (r: Option<Vec<char>>)
    ensures
        match russian_spec(c) {
            Some(s) => r matches Some(v) && v@ == s,
            None => r is None,
        },
{
    match c {
        'а' => {
            let v = vec!['a'];
            assert(v@ =~= seq!['a']);
            Some(v)
        },
        'б' => {
            let v = vec!['b'];
            assert(v@ =~= seq!['b']);
            Some(v)
        },
        'в' => {
            let v = vec!['v'];
            assert(v@ =~= seq!['v']);
            Some(v)
        },
        'г' => {
            let v = vec!['g'];
            assert(v@ =~= seq!['g']);
            Some(v)
        },
        'д' => {
            let v = vec!['d'];
            assert(v@ =~= seq!['d']);
            Some(v)
        },
        'е' | 'ё' => {
            let v = vec!['e'];
            assert(v@ =~= seq!['e']);
            Some(v)
        },
        'ж' => {
            let v = vec!['z', 'h'];
            assert(v@ =~= seq!['z', 'h']);
            Some(v)
        },
        'з' => {
            let v = vec!['z'];
            assert(v@ =~= seq!['z']);
            Some(v)
        },
        'и' | 'й' => {
            let v = vec!['i'];
            assert(v@ =~= seq!['i']);
            Some(v)
        },
        'к' => {
            let v = vec!['k'];
            assert(v@ =~= seq!['k']);
            Some(v)
        },
        'л' => {
            let v = vec!['l'];
            assert(v@ =~= seq!['l']);
            Some(v)
        },
        'м' => {
            let v = vec!['m'];
            assert(v@ =~= seq!['m']);
            Some(v)
        },
        'н' => {
            let v = vec!['n'];
            assert(v@ =~= seq!['n']);
            Some(v)
        },
        'о' => {
            let v = vec!['o'];
            assert(v@ =~= seq!['o']);
            Some(v)
        },
        'п' => {
            let v = vec!['p'];
            assert(v@ =~= seq!['p']);
            Some(v)
        },
        'р' => {
            let v = vec!['r'];
            assert(v@ =~= seq!['r']);
            Some(v)
        },
        'с' => {
            let v = vec!['s'];
            assert(v@ =~= seq!['s']);
            Some(v)
        },
        'т' => {
            let v = vec!['t'];
            assert(v@ =~= seq!['t']);
            Some(v)
        },
        'у' => {
            let v = vec!['u'];
            assert(v@ =~= seq!['u']);
            Some(v)
        },
        'ф' => {
            let v = vec!['f'];
            assert(v@ =~= seq!['f']);
            Some(v)
        },
        'х' => {
            let v = vec!['k', 'h'];
            assert(v@ =~= seq!['k', 'h']);
            Some(v)
        },
        'ц' => {
            let v = vec!['t', 'c'];
            assert(v@ =~= seq!['t', 'c']);
            Some(v)
        },
        'ч' => {
            let v = vec!['c', 'h'];
            assert(v@ =~= seq!['c', 'h']);
            Some(v)
        },
        'ш' => {
            let v = vec!['s', 'h'];
            assert(v@ =~= seq!['s', 'h']);
            Some(v)
        },
        'щ' => {
            let v = vec!['s', 'h', 'c', 'h'];
            assert(v@ =~= seq!['s', 'h', 'c', 'h']);
            Some(v)
        },
        'ъ' => {
            let v = Vec::new();
            assert(v@ =~= Seq::empty());
            Some(v)
        },
        'ы' => {
            let v = vec!['y'];
            assert(v@ =~= seq!['y']);
            Some(v)
        },
        'ь' => {
            let v = vec!['\''];
            assert(v@ =~= seq!['\'']);
            Some(v)
        },
        'э' => {
            let v = vec!['e'];
            assert(v@ =~= seq!['e']);
            Some(v)
        },
        'ю' => {
            let v = vec!['i', 'u'];
            assert(v@ =~= seq!['i', 'u']);
            Some(v)
        },
        'я' => {
            let v = vec!['i', 'a'];
            assert(v@ =~= seq!['i', 'a']);
            Some(v)
        },
        'А' => {
            let v = vec!['A'];
            assert(v@ =~= seq!['A']);
            Some(v)
        },
        'Б' => {
            let v = vec!['B'];
            assert(v@ =~= seq!['B']);
            Some(v)
        },
        'В' => {
            let v = vec!['V'];
            assert(v@ =~= seq!['V']);
            Some(v)
        },
        'Г' => {
            let v = vec!['G'];
            assert(v@ =~= seq!['G']);
            Some(v)
        },
        'Д' => {
            let v = vec!['D'];
            assert(v@ =~= seq!['D']);
            Some(v)
        },
        'Е' | 'Ё' => {
            let v = vec!['E'];
            assert(v@ =~= seq!['E']);
            Some(v)
        },
        'Ж' => {
            let v = vec!['Z', 'h'];
            assert(v@ =~= seq!['Z', 'h']);
            Some(v)
        },
        'З' => {
            let v = vec!['Z'];
            assert(v@ =~= seq!['Z']);
            Some(v)
        },
        'И' | 'Й' => {
            let v = vec!['I'];
            assert(v@ =~= seq!['I']);
            Some(v)
        },
        'К' => {
            let v = vec!['K'];
            assert(v@ =~= seq!['K']);
            Some(v)
        },
        'Л' => {
            let v = vec!['L'];
            assert(v@ =~= seq!['L']);
            Some(v)
        },
        'М' => {
            let v = vec!['M'];
            assert(v@ =~= seq!['M']);
            Some(v)
        },
        'Н' => {
            let v = vec!['N'];
            assert(v@ =~= seq!['N']);
            Some(v)
        },
        'О' => {
            let v = vec!['O'];
            assert(v@ =~= seq!['O']);
            Some(v)
        },
        'П' => {
            let v = vec!['P'];
            assert(v@ =~= seq!['P']);
            Some(v)
        },
        'Р' => {
            let v = vec!['R'];
            assert(v@ =~= seq!['R']);
            Some(v)
        },
        'С' => {
            let v = vec!['S'];
            assert(v@ =~= seq!['S']);
            Some(v)
        },
        'Т' => {
            let v = vec!['T'];
            assert(v@ =~= seq!['T']);
            Some(v)
        },
        'У' => {
            let v = vec!['U'];
            assert(v@ =~= seq!['U']);
            Some(v)
        },
        'Ф' => {
            let v = vec!['F'];
            assert(v@ =~= seq!['F']);
            Some(v)
        },
        'Х' => {
            let v = vec!['K', 'h'];
            assert(v@ =~= seq!['K', 'h']);
            Some(v)
        },
        'Ц' => {
            let v = vec!['T', 'c'];
            assert(v@ =~= seq!['T', 'c']);
            Some(v)
        },
        'Ч' => {
            let v = vec!['C', 'h'];
            assert(v@ =~= seq!['C', 'h']);
            Some(v)
        },
        'Ш' => {
            let v = vec!['S', 'h'];
            assert(v@ =~= seq!['S', 'h']);
            Some(v)
        },
        'Щ' => {
            let v = vec!['S', 'h', 'c', 'h'];
            assert(v@ =~= seq!['S', 'h', 'c', 'h']);
            Some(v)
        },
        'Ъ' => {
            let v = Vec::new();
            assert(v@ =~= Seq::empty());
            Some(v)
        },
        'Ы' => {
            let v = vec!['Y'];
            assert(v@ =~= seq!['Y']);
            Some(v)
        },
        'Ь' => {
            let v = vec!['\''];
            assert(v@ =~= seq!['\'']);
            Some(v)
        },
        'Э' => {
            let v = vec!['E'];
            assert(v@ =~= seq!['E']);
            Some(v)
        },
        'Ю' => {
            let v = vec!['I', 'u'];
            assert(v@ =~= seq!['I', 'u']);
            Some(v)
        },
        'Я' => {
            let v = vec!['I', 'a'];
            assert(v@ =~= seq!['I', 'a']);
            Some(v)
        },
        _ => None,
    }
}

/// Two-letter spelling of a German umlaut or sharp s.
pub open spec fn german_spec(c: char) -> Option<Seq<char>> {
    if c == 'Ä' {
        Some(seq!['A', 'e'])
    } else if c == 'ä' {
        Some(seq!['a', 'e'])
    } else if c == 'Ö' {
        Some(seq!['O', 'e'])
    } else if c == 'ö' {
        Some(seq!['o', 'e'])
    } else if c == 'Ü' {
        Some(seq!['U', 'e'])
    } else if c == 'ü' {
        Some(seq!['u', 'e'])
    } else if c == 'ß' {
        Some(seq!['s', 's'])
    } else {
        None
    }
}

/// Two-letter spelling of a German umlaut or sharp s.
fn map_german(c: char) -> (r: Option<Vec<char>>)
    ensures
        match german_spec(c) {
            Some(s) => r matches Some(v) && v@ == s,
            None => r is None,
        },
{
    match c {
        'Ä' => {
            let v = vec!['A', 'e'];
            assert(v@ =~= seq!['A', 'e']);
            Some(v)
        },
        'ä' => {
            let v = vec!['a', 'e'];
            assert(v@ =~= seq!['a', 'e']);
            Some(v)
        },
        'Ö' => {
            let v = vec!['O', 'e'];
            assert(v@ =~= seq!['O', 'e']);
            Some(v)
        },
        'ö' => {
            let v = vec!['o', 'e'];
            assert(v@ =~= seq!['o', 'e']);
            Some(v)
        },
        'Ü' => {
            let v = vec!['U', 'e'];
            assert(v@ =~= seq!['U', 'e']);
            Some(v)
        },
        'ü' => {
            let v = vec!['u', 'e'];
            assert(v@ =~= seq!['u', 'e']);
            Some(v)
        },
        'ß' => {
            let v = vec!['s', 's'];
            assert(v@ =~= seq!['s', 's']);
            Some(v)
        },
        _ => None,
    }
}

/// Kana that take a voicing mark (dakuten).
pub open spec fn dakuten_possible_spec(c: char) -> bool {
    c == 'か'
    || c == 'き'
    || c == 'く'
    || c == 'け'
    || c == 'こ'
    || c == 'さ'
    || c == 'し'
    || c == 'す'
    || c == 'せ'
    || c == 'そ'
    || c == 'た'
    || c == 'ち'
    || c == 'つ'
    || c == 'て'
    || c == 'と'
    || c == 'カ'
    || c == 'キ'
    || c == 'ク'
    || c == 'ケ'
    || c == 'コ'
    || c == 'サ'
    || c == 'シ'
    || c == 'ス'
    || c == 'セ'
    || c == 'ソ'
    || c == 'タ'
    || c == 'チ'
    || c == 'ツ'
    || c == 'テ'
    || c == 'ト'
    || c == 'は'
    || c == 'ひ'
    || c == 'ふ'
    || c == 'へ'
    || c == 'ほ'
    || c == 'ハ'
    || c == 'ヒ'
    || c == 'フ'
    || c == 'ヘ'
    || c == 'ホ'
}

/// Kana that take a voicing mark (dakuten).
fn is_dakuten_possible(c: char) -> (r: bool)
    ensures
        r == dakuten_possible_spec(c),
{
    match c {
        'か' | 'き' | 'く' | 'け' | 'こ' | 'さ' | 'し' | 'す' | 'せ' | 'そ' | 'た' | 'ち' | 'つ' | 'て' | 'と' | 'カ' | 'キ' | 'ク' | 'ケ' | 'コ' | 'サ' | 'シ' | 'ス' | 'セ' | 'ソ' | 'タ' | 'チ' | 'ツ' | 'テ' | 'ト' | 'は' | 'ひ' | 'ふ' | 'へ' | 'ほ' | 'ハ' | 'ヒ' | 'フ' | 'ヘ' | 'ホ' => true,
        _ => false,
    }
}

/// Kana that take a semi-voicing mark (handakuten).
pub open spec fn handakuten_possible_spec(c: char) -> bool {
    c == 'は'
    || c == 'ひ'
    || c == 'ふ'
    || c == 'へ'
    || c == 'ほ'
    || c == 'ハ'
    || c == 'ヒ'
    || c == 'フ'
    || c == 'ヘ'
    || c == 'ホ'
}

/// Kana that take a semi-voicing mark (handakuten).
fn is_handakuten_possible(c: char) -> (r: bool)
    ensures
        r == handakuten_possible_spec(c),
{
    match c {
        'は' | 'ひ' | 'ふ' | 'へ' | 'ほ' | 'ハ' | 'ヒ' | 'フ' | 'ヘ' | 'ホ' => true,
        _ => false,
    }
}

/// Characters that take two cells once written in half-width form.
pub open spec fn multi_byte_half_width_spec(c: char) -> bool {
    c == 'ガ'
    || c == 'ギ'
    || c == 'グ'
    || c == 'ゲ'
    || c == 'ゴ'
    || c == 'ザ'
    || c == 'ジ'
    || c == 'ズ'
    || c == 'ゼ'
    || c == 'ゾ'
    || c == 'ダ'
    || c == 'ヂ'
    || c == 'ヅ'
    || c == 'デ'
    || c == 'ド'
    || c == 'バ'
    || c == 'パ'
    || c == 'ビ'
    || c == 'ピ'
    || c == 'ブ'
    || c == 'プ'
    || c == 'ベ'
    || c == 'ペ'
    || c == 'ボ'
    || c == 'ポ'
    || c == 'ヮ'
    || c == 'ヰ'
    || c == 'ヱ'
    || c == 'ヵ'
    || c == 'ヶ'
    || c == 'ヴ'
    || c == 'ヽ'
    || c == 'ヾ'
    || c == 'が'
    || c == 'ぎ'
    || c == 'ぐ'
    || c == 'げ'
    || c == 'ご'
    || c == 'ざ'
    || c == 'じ'
    || c == 'ず'
    || c == 'ぜ'
    || c == 'ぞ'
    || c == 'だ'
    || c == 'ぢ'
    || c == 'づ'
    || c == 'で'
    || c == 'ど'
    || c == 'ば'
    || c == 'ぱ'
    || c == 'び'
    || c == 'ぴ'
    || c == 'ぶ'
    || c == 'ぷ'
    || c == 'べ'
    || c == 'ぺ'
    || c == 'ぼ'
    || c == 'ぽ'
    || c == 'ゎ'
    || c == 'ゐ'
    || c == 'ゑ'
    || c == 'ゕ'
    || c == 'ゖ'
    || c == 'ゔ'
    || c == 'ゝ'
    || c == 'ゞ'
}

/// Characters that take two cells once written in half-width form.
fn is_multi_byte_when_half_width_sanitized(c: char) -> (r: bool)
    ensures
        r == multi_byte_half_width_spec(c),
{
    match c {
        'ガ' | 'ギ' | 'グ' | 'ゲ' | 'ゴ' | 'ザ' | 'ジ' | 'ズ' | 'ゼ' | 'ゾ' | 'ダ' | 'ヂ' | 'ヅ' | 'デ' | 'ド' | 'バ' | 'パ' | 'ビ' | 'ピ' | 'ブ' | 'プ' | 'ベ' | 'ペ' | 'ボ' | 'ポ' | 'ヮ' | 'ヰ' | 'ヱ' | 'ヵ' | 'ヶ' | 'ヴ' | 'ヽ' | 'ヾ' | 'が' | 'ぎ' | 'ぐ' | 'げ' | 'ご' | 'ざ' | 'じ' | 'ず' | 'ぜ' | 'ぞ' | 'だ' | 'ぢ' | 'づ' | 'で' | 'ど' | 'ば' | 'ぱ' | 'び' | 'ぴ' | 'ぶ' | 'ぷ' | 'べ' | 'ぺ' | 'ぼ' | 'ぽ' | 'ゎ' | 'ゐ' | 'ゑ' | 'ゕ' | 'ゖ' | 'ゔ' | 'ゝ' | 'ゞ' => true,
        _ => false,
    }
}

/// Half-width form of a character, if the title tables have one: the
/// ideographic space becomes a space, full-width ASCII becomes ASCII, kana
/// and Japanese punctuation take their half-width forms.
pub open spec fn half_width_map_spec(c: char) -> Option<Seq<char>> {
    if c as u32 == 0x3000 {
        Some(seq![' '])
    } else if 0xff01 <= c as u32 <= 0xff5e {
        Some(seq![(c as u32 - 0xfee0) as char])
    } else {
        kana_half_width_spec(c)
    }
}

fn map_to_half_width(c: char) -> (r: Option<Vec<char>>)
    ensures
        match half_width_map_spec(c) {
            Some(s) => r matches Some(v) && v@ == s,
            None => r is None,
        },
{
    let v = c as u32;
    if v == 0x3000 {
        return Some(vec![' ']);
    }
    if 0xff01 <= v && v <= 0xff5e {
        return match char_from_u32(v - 0xfee0) {
            Some(a) => Some(vec![a]),
            None => None,
        };
    }
    kana_to_half_width(c)
}

/// Characters that the half-width TOC keeps as they are.
pub open spec fn allowed_half_width_spec(c: char) -> bool {
    (0xff61 <= c as u32 <= 0xff9f) || c == 'ヮ' || c == 'ヰ' || c == 'ヱ' || c == 'ヵ' || c == 'ヶ'
        || c == 'ヽ' || c == 'ヾ'
}

fn is_allowed_half_width_char(c: char) -> (r: bool)
    ensures
        r == allowed_half_width_spec(c),
{
    let v = c as u32;
    (0xff61 <= v && v <= 0xff9f) || c == 'ヮ' || c == 'ヰ' || c == 'ヱ' || c == 'ヵ' || c == 'ヶ'
        || c == 'ヽ' || c == 'ヾ'
}

/// Full-width form of a character, if the title tables have one: a space
/// becomes the ideographic space, printable ASCII its full-width form,
/// half-width katakana and punctuation their full-width forms.
pub open spec fn full_width_jp_spec(c: char) -> Option<Seq<char>> {
    if c == ' ' {
        Some(seq!['　'])
    } else if 0x21 <= c as u32 <= 0x7e {
        Some(seq![(c as u32 + 0xfee0) as char])
    } else {
        full_width_jp_table_spec(c)
    }
}

fn map_to_full_width_jp(c: char) -> (r: Option<Vec<char>>)
    ensures
        match full_width_jp_spec(c) {
            Some(s) => r matches Some(v) && v@ == s,
            None => r is None,
        },
{
    let v = c as u32;
    if c == ' ' {
        return Some(vec!['　']);
    }
    if 0x21 <= v && v <= 0x7e {
        return match char_from_u32(v + 0xfee0) {
            Some(a) => Some(vec![a]),
            None => None,
        };
    }
    to_full_width_jp_table(c)
}

/// Transliteration of a one-character Cyrillic string.
pub open spec fn russian_str_spec(s: Seq<char>) -> Option<Seq<char>> {
    if s.len() == 1 {
        russian_spec(s[0])
    } else {
        None
    }
}

/// Spelling of a one-character German umlaut or sharp s string.
pub open spec fn german_str_spec(s: Seq<char>) -> Option<Seq<char>> {
    if s.len() == 1 {
        german_spec(s[0])
    } else {
        None
    }
}

/// A character as the full-width remapping writes it: its full-width
/// Japanese form if any, then transliterated if Cyrillic, then spelled out
/// if German.
pub open spec fn remap_char_spec(c: char) -> Seq<char> {
    let jp = match full_width_jp_spec(c) {
        Some(s) => s,
        None => seq![c],
    };
    let ru = match russian_str_spec(jp) {
        Some(s) => s,
        None => jp,
    };
    match german_str_spec(ru) {
        Some(s) => s,
        None => ru,
    }
}

/// The full-width remapping of a whole title.
pub open spec fn remap_spec(s: Seq<char>) -> Seq<char>
    decreases s.len(),
{
    if s.len() == 0 {
        s
    } else {
        remap_spec(s.drop_last()) + remap_char_spec(s.last())
    }
}

fn one_char_table(s: &[char], russian: bool) -> (r: Option<Vec<char>>)
    ensures
        match (if russian { russian_str_spec(s@) } else { german_str_spec(s@) }) {
            Some(t) => r matches Some(v) && v@ == t,
            None => r is None,
        },
{
    if s.len() != 1 {
        return None;
    }
    if russian {
        map_russian(s[0])
    } else {
        map_german(s[0])
    }
}

fn remap_char(c: char) -> (r: Vec<char>)
    ensures
        r@ == remap_char_spec(c),
{
    let jp = match map_to_full_width_jp(c) {
        Some(s) => s,
        None => vec![c],
    };
    let ru = match one_char_table(jp.as_slice(), true) {
        Some(s) => s,
        None => jp,
    };
    match one_char_table(ru.as_slice(), false) {
        Some(s) => s,
        None => ru,
    }
}

fn sanitize_full_width_title_remap(title: &[char]) -> (r: Vec<char>)
    ensures
        r@ == remap_spec(title@),
{
    let mut r: Vec<char> = Vec::new();
    let mut i: usize = 0;
    while i < title.len()
        invariant
            i <= title@.len(),
            r@ == remap_spec(title@.take(i as int)),
        decreases title@.len() - i,
    {
        assert(title@.take(i + 1).drop_last() =~= title@.take(i as int));
        let m = remap_char(title[i]);
        append_chars(&mut r, m.as_slice());
        i = i + 1;
    }
    assert(title@.take(title@.len() as int) =~= title@);
    r
}

/// The character `k` code points after `c`, or `c` itself when that is no character.
pub open spec fn char_after(c: char, k: u32) -> char {
    let v = c as u32 + k;
    if v < 0xd800 || (0xe000 <= v && v <= 0x10ffff) {
        v as char
    } else {
        c
    }
}

/// Whether `c` is a separate voicing mark.
pub open spec fn is_dakuten_mark(c: char) -> bool {
    c as u32 == 0x309b || c as u32 == 0x3099 || c as u32 == 0xff9e
}

/// Whether `c` is a separate semi-voicing mark.
pub open spec fn is_handakuten_mark(c: char) -> bool {
    c as u32 == 0x309c || c as u32 == 0x309a || c as u32 == 0xff9f
}

/// One step of mark folding, walking the title backwards: the state is the
/// characters kept so far (last first) and the pending mark (0 none, 1
/// voicing, 2 semi-voicing).
pub open spec fn flatten_step(st: (Seq<char>, u8), c: char) -> (Seq<char>, u8) {
    let (fixed, mark) = st;
    if mark == 1 && dakuten_possible_spec(c) {
        (fixed.push(char_after(c, 1)), 0)
    } else if mark == 2 && handakuten_possible_spec(c) {
        (fixed.push(char_after(c, 2)), 0)
    } else if is_dakuten_mark(c) {
        (fixed, 1)
    } else if is_handakuten_mark(c) {
        (fixed, 2)
    } else {
        (fixed.push(c), 0)
    }
}

/// Mark folding over `s`, from its last character to its first.
pub open spec fn flatten_state(s: Seq<char>) -> (Seq<char>, u8)
    decreases s.len(),
{
    if s.len() == 0 {
        (Seq::empty(), 0)
    } else {
        flatten_step(flatten_state(s.drop_first()), s[0])
    }
}

/// `s` in reverse order.
pub open spec fn rev_spec(s: Seq<char>) -> Seq<char> {
    Seq::new(s.len(), |i: int| s[s.len() - 1 - i])
}

/// A title with separate voicing marks folded into the kana before them;
/// a mark that follows no kana that takes it is dropped.
pub open spec fn flatten_dakuten_spec(s: Seq<char>) -> Seq<char> {
    rev_spec(flatten_state(s).0)
}

fn flatten_dakuten(title: &[char]) -> (r: Vec<char>)
    ensures
        r@ == flatten_dakuten_spec(title@),
{
    let mut fixed: Vec<char> = Vec::new();
    let mut mark: u8 = 0;
    let mut i: usize = title.len();
    assert(title@.skip(title@.len() as int) =~= Seq::<char>::empty());
    while i > 0
        invariant
            i <= title@.len(),
            (fixed@, mark) == flatten_state(title@.skip(i as int)),
        decreases i,
    {
        let c = title[i - 1];
        assert(title@.skip(i - 1).drop_first() =~= title@.skip(i as int));
        if mark == 1 && is_dakuten_possible(c) {
            fixed.push(match char_from_u32(c as u32 + 1) {
                Some(d) => d,
                None => c,
            });
            mark = 0;
        } else if mark == 2 && is_handakuten_possible(c) {
            fixed.push(match char_from_u32(c as u32 + 2) {
                Some(d) => d,
                None => c,
            });
            mark = 0;
        } else if c as u32 == 0x309b || c as u32 == 0x3099 || c as u32 == 0xff9e {
            mark = 1;
        } else if c as u32 == 0x309c || c as u32 == 0x309a || c as u32 == 0xff9f {
            mark = 2;
        } else {
            fixed.push(c);
            mark = 0;
        }
        i = i - 1;
    }
    assert(title@.skip(0) =~= title@);
    let n = fixed.len();
    let mut r: Vec<char> = Vec::new();
    let mut j: usize = 0;
    while j < n
        invariant
            n == fixed@.len(),
            j <= n,
            r@ == rev_spec(fixed@).take(j as int),
        decreases n - j,
    {
        r.push(fixed[n - 1 - j]);
        j = j + 1;
        assert(r@ =~= rev_spec(fixed@).take(j as int));
    }
    assert(rev_spec(fixed@).take(n as int) =~= rev_spec(fixed@));
    r
}

/// `s` without the characters that are combining marks.
pub open spec fn strip_marks(s: Seq<char>) -> Seq<char>
    decreases s.len(),
{
    if s.len() == 0 {
        s
    } else if combining_mark_of(s.last()) {
        strip_marks(s.drop_last())
    } else {
        strip_marks(s.drop_last()).push(s.last())
    }
}

/// The ASCII characters of `s` that are not combining marks.
pub open spec fn ascii_unmarked(s: Seq<char>) -> Seq<char>
    decreases s.len(),
{
    if s.len() == 0 {
        s
    } else if (s.last() as u32) < 0x80 && !combining_mark_of(s.last()) {
        ascii_unmarked(s.drop_last()).push(s.last())
    } else {
        ascii_unmarked(s.drop_last())
    }
}

/// Whether every character of `s` is ASCII.
pub open spec fn all_ascii(s: Seq<char>) -> bool {
    forall|i: int| 0 <= i < s.len() ==> (#[trigger] s[i] as u32) < 0x80
}

fn filter_chars(s: &[char], ascii_only: bool) -> (r: Vec<char>)
    ensures
        r@ == (if ascii_only { ascii_unmarked(s@) } else { strip_marks(s@) }),
{
    let mut r: Vec<char> = Vec::new();
    let mut i: usize = 0;
    while i < s.len()
        invariant
            i <= s@.len(),
            r@ == (if ascii_only { ascii_unmarked(s@.take(i as int)) } else { strip_marks(s@.take(i as int)) }),
        decreases s@.len() - i,
    {
        assert(s@.take(i + 1).drop_last() =~= s@.take(i as int));
        let c = s[i];
        let keep = if ascii_only {
            (c as u32) < 0x80 && !is_combining_mark(c)
        } else {
            !is_combining_mark(c)
        };
        if keep {
            r.push(c);
        }
        i = i + 1;
    }
    assert(s@.take(s@.len() as int) =~= s@);
    r
}

/// A title reduced to the ASCII left after canonical decomposition, with
/// combining marks dropped.
pub open spec fn aggressive_spec(s: Seq<char>) -> Seq<char> {
    ascii_unmarked(nfd_of(s))
}

fn aggressive_sanitize_title(title: &str) -> (r: Vec<char>)
    ensures
        r@ == aggressive_spec(title@),
{
    let d = nfd_chars(title);
    filter_chars(d.as_slice(), true)
}

/// A character without its diacritics: its decomposition minus the marks.
pub open spec fn remove_diacritics_spec(c: char) -> Seq<char> {
    strip_marks(nfd_of(seq![c]))
}

fn remove_diacritics(c: char) -> (r: Vec<char>)
    ensures
        r@ == remove_diacritics_spec(c),
{
    let one = vec![c];
    let s = chars_to_string(one.as_slice());
    assert(one@ =~= seq![c]);
    let d = nfd_chars(s.as_str());
    filter_chars(d.as_slice(), false)
}

/// A character as the half-width sanitizer writes it.
pub open spec fn half_width_char_spec(c: char) -> Seq<char> {
    match half_width_map_spec(c) {
        Some(m) => m,
        None => if (c as u32) < 0x80 || allowed_half_width_spec(c) {
            seq![c]
        } else {
            let w = remove_diacritics_spec(c);
            if w.len() > 0 && all_ascii(w) {
                w
            } else {
                seq![' ']
            }
        },
    }
}

/// The half-width mapping of a whole title.
pub open spec fn half_width_chars_spec(s: Seq<char>) -> Seq<char>
    decreases s.len(),
{
    if s.len() == 0 {
        s
    } else {
        half_width_chars_spec(s.drop_last()) + half_width_char_spec(s.last())
    }
}

fn all_ascii_chars(s: &[char]) -> (r: bool)
    ensures
        r == all_ascii(s@),
{
    let mut i: usize = 0;
    while i < s.len()
        invariant
            i <= s@.len(),
            forall|j: int| 0 <= j < i ==> (#[trigger] s@[j] as u32) < 0x80,
        decreases s@.len() - i,
    {
        if s[i] as u32 >= 0x80 {
            return false;
        }
        i = i + 1;
    }
    true
}

fn half_width_char(c: char) -> (r: Vec<char>)
    ensures
        r@ == half_width_char_spec(c),
{
    if let Some(m) = map_to_half_width(c) {
        return m;
    }
    if (c as u32) < 0x80 || is_allowed_half_width_char(c) {
        return vec![c];
    }
    let w = remove_diacritics(c);
    if w.len() > 0 && all_ascii_chars(w.as_slice()) {
        w
    } else {
        vec![' ']
    }
}

/// The half-width candidate of a title: remapped, marks folded, then each
/// character in its half-width form.
pub open spec fn half_width_candidate(s: Seq<char>) -> Seq<char> {
    half_width_chars_spec(flatten_dakuten_spec(remap_spec(s)))
}

/// The half-width title chosen once the candidate is encoded, given the
/// encoder's bytes `enc` and error flag `err`: the candidate when it
/// encoded without loss in exactly as many bytes as the title's half-width
/// length, else the aggressive ASCII fallback.
pub open spec fn half_width_choice(s: Seq<char>, enc: Seq<u8>, err: bool) -> Seq<char> {
    if !err && enc.len() == half_width_length_spec(s) {
        half_width_candidate(s)
    } else {
        aggressive_spec(s)
    }
}

/// What the half-width sanitizer returns: the choice made on the
/// Shift-JIS encoding of the candidate.
pub open spec fn sanitize_half_width_spec(s: Seq<char>) -> Seq<char> {
    let enc = sjis_encode_of(half_width_candidate(s));
    half_width_choice(s, enc.0, enc.1)
}

/// The half-width candidate of a title.
fn half_width_candidate_string(title: &str) -> (r: String)
    requires
        3 * title@.len() <= usize::MAX,
    ensures
        r@ == half_width_candidate(title@),
{
    let cs = str_to_chars(title);
    let remapped = sanitize_full_width_title_remap(cs.as_slice());
    let flat = flatten_dakuten(remapped.as_slice());
    let mut candidate: Vec<char> = Vec::new();
    let mut i: usize = 0;
    while i < flat.len()
        invariant
            i <= flat@.len(),
            candidate@ == half_width_chars_spec(flat@.take(i as int)),
        decreases flat@.len() - i,
    {
        assert(flat@.take(i + 1).drop_last() =~= flat@.take(i as int));
        let m = half_width_char(flat[i]);
        append_chars(&mut candidate, m.as_slice());
        i = i + 1;
    }
    assert(flat@.take(flat@.len() as int) =~= flat@);
    chars_to_string(candidate.as_slice())
}

/// Keeps the candidate or falls back, as [`half_width_choice`] says.
fn pick_half_width(title: &str, candidate: String, encoded_len: usize, had_errors: bool) -> (r: String)
    requires
        3 * title@.len() <= usize::MAX,
        candidate@ == half_width_candidate(title@),
    ensures
        forall|enc: Seq<u8>| enc.len() == encoded_len ==> r@ == #[trigger] half_width_choice(title@, enc, had_errors),
{
    let expected = get_half_width_title_length(title);
    if !had_errors && encoded_len == expected {
        candidate
    } else {
        let a = aggressive_sanitize_title(title);
        chars_to_string(a.as_slice())
    }
}

/// The half-width title chosen for `title` once its candidate has been
/// encoded to Shift-JIS as `encoded`, with the encoder's error flag
/// `had_errors` (see [`half_width_choice`]).
pub fn choose_half_width_title(title: &str, encoded: &[u8], had_errors: bool) -> (r: String)
    requires
        3 * title@.len() <= usize::MAX,
    ensures
        r@ == half_width_choice(title@, encoded@, had_errors),
{
    let candidate = half_width_candidate_string(title);
    pick_half_width(title, candidate, encoded.len(), had_errors)
}

/// Sanitizes a title for the half-width TOC (see [`sanitize_half_width_spec`]).
pub fn sanitize_half_width_title(title: &str) -> (r: String)
    requires
        3 * title@.len() <= usize::MAX,
    ensures
        r@ == sanitize_half_width_spec(title@),
{
    let candidate = half_width_candidate_string(title);
    let (encoded, errors) = sjis_encode_raw(candidate.as_str());
    let r = pick_half_width(title, candidate, encoded.len(), errors);
    assert(r@ == half_width_choice(title@, encoded@, errors));
    r
}

/// The full-width title chosen once the remapped title is encoded, given
/// the encoder's bytes `enc` and error flag `err`: the remapped title when
/// it encoded without loss in two bytes per UTF-16 unit of the title, else
/// the aggressive ASCII fallback.
pub open spec fn full_width_choice(s: Seq<char>, enc: Seq<u8>, err: bool) -> Seq<char> {
    if !err && enc.len() == utf16_len_spec(s) * 2 {
        remap_spec(s)
    } else {
        aggressive_spec(s)
    }
}

/// What the full-width sanitizer returns: the choice made on the
/// Shift-JIS encoding of the remapped title.
pub open spec fn sanitize_full_width_spec(s: Seq<char>) -> Seq<char> {
    let enc = sjis_encode_of(remap_spec(s));
    full_width_choice(s, enc.0, enc.1)
}

/// The remapped title, as a string.
fn remapped_string(title: &str) -> (r: String)
    requires
        4 * title@.len() <= usize::MAX,
    ensures
        r@ == remap_spec(title@),
{
    let cs = str_to_chars(title);
    let remapped = sanitize_full_width_title_remap(cs.as_slice());
    chars_to_string(remapped.as_slice())
}

/// Keeps the remapped title or falls back, as [`full_width_choice`] says.
fn pick_full_width(title: &str, candidate: String, encoded_len: usize, had_errors: bool) -> (r: String)
    requires
        4 * title@.len() <= usize::MAX,
        candidate@ == remap_spec(title@),
    ensures
        forall|enc: Seq<u8>| enc.len() == encoded_len ==> r@ == #[trigger] full_width_choice(title@, enc, had_errors),
{
    let cs = str_to_chars(title);
    proof {
        lemma_utf16_len_bound(title@);
    }
    let units = utf16_len(cs.as_slice());
    if !had_errors && encoded_len == units * 2 {
        candidate
    } else {
        let a = aggressive_sanitize_title(title);
        chars_to_string(a.as_slice())
    }
}

/// The full-width title chosen for `title` once its remapped form has been
/// encoded to Shift-JIS as `encoded`, with the encoder's error flag
/// `had_errors` (see [`full_width_choice`]).
pub fn choose_full_width_title(title: &str, encoded: &[u8], had_errors: bool) -> (r: String)
    requires
        4 * title@.len() <= usize::MAX,
    ensures
        r@ == full_width_choice(title@, encoded@, had_errors),
{
    let candidate = remapped_string(title);
    pick_full_width(title, candidate, encoded.len(), had_errors)
}

/// Sanitizes a title for the full-width TOC (see [`sanitize_full_width_spec`]).
pub fn sanitize_full_width_title(title: &str) -> (r: String)
    requires
        4 * title@.len() <= usize::MAX,
    ensures
        r@ == sanitize_full_width_spec(title@),
{
    let candidate = remapped_string(title);
    let (encoded, errors) = sjis_encode_raw(candidate.as_str());
    let r = pick_full_width(title, candidate, encoded.len(), errors);
    assert(r@ == full_width_choice(title@, encoded@, errors));
    r
}

/// The sanitizer of a title table: full-width when `w_char`, else half-width.
pub open spec fn sanitize_title_spec(title: Seq<char>, w_char: bool) -> Seq<char> {
    if w_char {
        sanitize_full_width_spec(title)
    } else {
        sanitize_half_width_spec(title)
    }
}

/// Sanitizes a title for the full-width table when `w_char`, else for the
/// half-width table.
pub fn sanitize_title(title: &str, w_char: bool) -> (r: String)
    requires
        4 * title@.len() <= usize::MAX,
    ensures
        r@ == sanitize_title_spec(title@, w_char),
{
    if w_char {
        sanitize_full_width_title(title)
    } else {
        sanitize_half_width_title(title)
    }
}

} // verus!
