//! What the title tables do, stated against the layout of Unicode: every
//! kana takes the half-width katakana of the same sound.
//!
//! Full-width katakana lie in rows of the gojūon order (U+30A1..U+30F4),
//! hiragana 0x60 code points below them, and the half-width katakana of
//! the Halfwidth and Fullwidth Forms block (U+FF66..U+FF9F) follow the same
//! order. The laws below give, row by row, which half-width character each
//! kana stands for, in terms of code points only.

use vstd::prelude::*;
use crate::title::half_width_map_spec;

verus! {

/// The character with code point `v`.
pub open spec fn cp(v: int) -> char {
    v as char
}

/// The katakana at `kata` and the hiragana 0x60 below it both take the
/// half-width character at `hw`.
pub open spec fn kana_takes(kata: int, hw: int) -> bool {
    &&& half_width_map_spec(cp(kata)) == Some(seq![cp(hw)])
    &&& half_width_map_spec(cp(kata - 0x60)) == Some(seq![cp(hw)])
}

/// The katakana at `kata` and the hiragana 0x60 below it both take the
/// half-width character at `hw` followed by the voicing mark at `mark`.
pub open spec fn kana_takes_marked(kata: int, hw: int, mark: int) -> bool {
    &&& half_width_map_spec(cp(kata)) == Some(seq![cp(hw), cp(mark)])
    &&& half_width_map_spec(cp(kata - 0x60)) == Some(seq![cp(hw), cp(mark)])
}

/// The vowels ア..オ (and あ..お) take ｱ..ｵ, and their small forms
/// ァ..ォ take ｧ..ｫ.
pub proof fn lemma_vowel_row()
    ensures
        forall|k: int| 0 <= k < 5 ==> #[trigger] kana_takes(0x30A2 + 2 * k, 0xFF71 + k),
        forall|k: int| 0 <= k < 5 ==> #[trigger] kana_takes(0x30A1 + 2 * k, 0xFF67 + k),
{
    assert forall|k: int| 0 <= k < 5 implies #[trigger] kana_takes(0x30A2 + 2 * k, 0xFF71 + k) by {
        if k == 0 {
        } else if k == 1 {
        } else if k == 2 {
        } else if k == 3 {
        } else {
        }
    }
    assert forall|k: int| 0 <= k < 5 implies #[trigger] kana_takes(0x30A1 + 2 * k, 0xFF67 + k) by {
        if k == 0 {
        } else if k == 1 {
        } else if k == 2 {
        } else if k == 3 {
        } else {
        }
    }
}

/// カ..コ take ｶ..ｺ, and ガ..ゴ take ｶ..ｺ followed by ﾞ.
pub proof fn lemma_ka_row()
    ensures
        forall|k: int| 0 <= k < 5 ==> #[trigger] kana_takes(0x30AB + 2 * k, 0xFF76 + k),
        forall|k: int| 0 <= k < 5 ==> #[trigger] kana_takes_marked(0x30AC + 2 * k, 0xFF76 + k, 0xFF9E),
{
    assert forall|k: int| 0 <= k < 5 implies #[trigger] kana_takes(0x30AB + 2 * k, 0xFF76 + k) by {
        if k == 0 {
        } else if k == 1 {
        } else if k == 2 {
        } else if k == 3 {
        } else {
        }
    }
    assert forall|k: int| 0 <= k < 5 implies #[trigger] kana_takes_marked(0x30AC + 2 * k, 0xFF76 + k, 0xFF9E) by {
        if k == 0 {
        } else if k == 1 {
        } else if k == 2 {
        } else if k == 3 {
        } else {
        }
    }
}

/// サ..ソ take ｻ..ｿ, and ザ..ゾ take ｻ..ｿ followed by ﾞ.
pub proof fn lemma_sa_row()
    ensures
        forall|k: int| 0 <= k < 5 ==> #[trigger] kana_takes(0x30B5 + 2 * k, 0xFF7B + k),
        forall|k: int| 0 <= k < 5 ==> #[trigger] kana_takes_marked(0x30B6 + 2 * k, 0xFF7B + k, 0xFF9E),
{
    assert forall|k: int| 0 <= k < 5 implies #[trigger] kana_takes(0x30B5 + 2 * k, 0xFF7B + k) by {
        if k == 0 {
        } else if k == 1 {
        } else if k == 2 {
        } else if k == 3 {
        } else {
        }
    }
    assert forall|k: int| 0 <= k < 5 implies #[trigger] kana_takes_marked(0x30B6 + 2 * k, 0xFF7B + k, 0xFF9E) by {
        if k == 0 {
        } else if k == 1 {
        } else if k == 2 {
        } else if k == 3 {
        } else {
        }
    }
}

/// タ..ト take ﾀ..ﾄ (the small ッ sits before ツ), ダ..ド take them followed by ﾞ, and ッ takes ｯ.
pub proof fn lemma_ta_row()
    ensures
        forall|k: int| 0 <= k < 2 ==> #[trigger] kana_takes(0x30BF + 2 * k, 0xFF80 + k),
        forall|k: int| 2 <= k < 5 ==> #[trigger] kana_takes(0x30C0 + 2 * k, 0xFF80 + k),
        forall|k: int| 0 <= k < 2 ==> #[trigger] kana_takes_marked(0x30C0 + 2 * k, 0xFF80 + k, 0xFF9E),
        forall|k: int| 2 <= k < 5 ==> #[trigger] kana_takes_marked(0x30C1 + 2 * k, 0xFF80 + k, 0xFF9E),
        forall|k: int| k == 0 ==> #[trigger] kana_takes(0x30C3 + k, 0xFF6F + k),
{
    assert forall|k: int| 0 <= k < 2 implies #[trigger] kana_takes(0x30BF + 2 * k, 0xFF80 + k) by {
        if k == 0 {
        } else {
        }
    }
    assert forall|k: int| 2 <= k < 5 implies #[trigger] kana_takes(0x30C0 + 2 * k, 0xFF80 + k) by {
        if k == 2 {
        } else if k == 3 {
        } else {
        }
    }
    assert forall|k: int| 0 <= k < 2 implies #[trigger] kana_takes_marked(0x30C0 + 2 * k, 0xFF80 + k, 0xFF9E) by {
        if k == 0 {
        } else {
        }
    }
    assert forall|k: int| 2 <= k < 5 implies #[trigger] kana_takes_marked(0x30C1 + 2 * k, 0xFF80 + k, 0xFF9E) by {
        if k == 2 {
        } else if k == 3 {
        } else {
        }
    }
    assert forall|k: int| k == 0 implies #[trigger] kana_takes(0x30C3 + k, 0xFF6F + k) by {
    }
}

/// ナ..ノ take ﾅ..ﾉ.
pub proof fn lemma_na_row()
    ensures
        forall|k: int| 0 <= k < 5 ==> #[trigger] kana_takes(0x30CA + k, 0xFF85 + k),
{
    assert forall|k: int| 0 <= k < 5 implies #[trigger] kana_takes(0x30CA + k, 0xFF85 + k) by {
        if k == 0 {
        } else if k == 1 {
        } else if k == 2 {
        } else if k == 3 {
        } else {
        }
    }
}

/// ハ..ホ take ﾊ..ﾎ, バ..ボ take them followed by ﾞ, and パ..ポ followed by ﾟ.
pub proof fn lemma_ha_row()
    ensures
        forall|k: int| 0 <= k < 5 ==> #[trigger] kana_takes(0x30CF + 3 * k, 0xFF8A + k),
        forall|k: int| 0 <= k < 5 ==> #[trigger] kana_takes_marked(0x30D0 + 3 * k, 0xFF8A + k, 0xFF9E),
        forall|k: int| 0 <= k < 5 ==> #[trigger] kana_takes_marked(0x30D1 + 3 * k, 0xFF8A + k, 0xFF9F),
{
    assert forall|k: int| 0 <= k < 5 implies #[trigger] kana_takes(0x30CF + 3 * k, 0xFF8A + k) by {
        if k == 0 {
        } else if k == 1 {
        } else if k == 2 {
        } else if k == 3 {
        } else {
        }
    }
    assert forall|k: int| 0 <= k < 5 implies #[trigger] kana_takes_marked(0x30D0 + 3 * k, 0xFF8A + k, 0xFF9E) by {
        if k == 0 {
        } else if k == 1 {
        } else if k == 2 {
        } else if k == 3 {
        } else {
        }
    }
    assert forall|k: int| 0 <= k < 5 implies #[trigger] kana_takes_marked(0x30D1 + 3 * k, 0xFF8A + k, 0xFF9F) by {
        if k == 0 {
        } else if k == 1 {
        } else if k == 2 {
        } else if k == 3 {
        } else {
        }
    }
}

/// マ..モ take ﾏ..ﾓ.
pub proof fn lemma_ma_row()
    ensures
        forall|k: int| 0 <= k < 5 ==> #[trigger] kana_takes(0x30DE + k, 0xFF8F + k),
{
    assert forall|k: int| 0 <= k < 5 implies #[trigger] kana_takes(0x30DE + k, 0xFF8F + k) by {
        if k == 0 {
        } else if k == 1 {
        } else if k == 2 {
        } else if k == 3 {
        } else {
        }
    }
}

/// ヤ, ユ, ヨ take ﾔ, ﾕ, ﾖ, and their small forms ｬ, ｭ, ｮ.
pub proof fn lemma_ya_row()
    ensures
        forall|k: int| 0 <= k < 3 ==> #[trigger] kana_takes(0x30E4 + 2 * k, 0xFF94 + k),
        forall|k: int| 0 <= k < 3 ==> #[trigger] kana_takes(0x30E3 + 2 * k, 0xFF6C + k),
{
    assert forall|k: int| 0 <= k < 3 implies #[trigger] kana_takes(0x30E4 + 2 * k, 0xFF94 + k) by {
        if k == 0 {
        } else if k == 1 {
        } else {
        }
    }
    assert forall|k: int| 0 <= k < 3 implies #[trigger] kana_takes(0x30E3 + 2 * k, 0xFF6C + k) by {
        if k == 0 {
        } else if k == 1 {
        } else {
        }
    }
}

/// ラ..ロ take ﾗ..ﾛ.
pub proof fn lemma_ra_row()
    ensures
        forall|k: int| 0 <= k < 5 ==> #[trigger] kana_takes(0x30E9 + k, 0xFF97 + k),
{
    assert forall|k: int| 0 <= k < 5 implies #[trigger] kana_takes(0x30E9 + k, 0xFF97 + k) by {
        if k == 0 {
        } else if k == 1 {
        } else if k == 2 {
        } else if k == 3 {
        } else {
        }
    }
}

/// ワ, ヲ and ン take ﾜ, ｦ and ﾝ, and ヴ takes ｳ followed by ﾞ.
pub proof fn lemma_last_kana()
    ensures
        kana_takes(0x30EF, 0xFF9C),
        kana_takes(0x30F2, 0xFF66),
        kana_takes(0x30F3, 0xFF9D),
        kana_takes_marked(0x30F4, 0xFF73, 0xFF9E),
{
}

} // verus!
