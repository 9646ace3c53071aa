//! A small tokenizer for response lines.
//!
//! The layout of a response line is written as a table of tokens: fixed
//! text, decimal numbers, one of two characters. The tokenizer walks a
//! line along such a table from its first byte and hands out one number
//! per token. Text behind the last token is left unread.

use crate::text::{has_tag_at, read_i32, read_unsigned, signed_at, tag_at, unsigned_at};
use vstd::prelude::*;
use vstd::string::StringSliceAdditionalSpecFns;

verus! {

/// One token of a line layout, in specifications.
pub enum TokenView {
    Tag { text: Seq<u8> },
    Unsigned { limit: u64 },
    Signed,
    Either { first: u8, second: u8 },
}

/// One token of a line layout.
pub enum Token {
    /// This text, byte for byte. Hands out 0.
    Tag { text: &'static str },
    /// An unsigned decimal number of at most `limit`. Hands out the number.
    Unsigned { limit: u64 },
    /// A decimal number with an optional sign that fits 32 signed bits.
    /// Hands out the number.
    Signed,
    /// One of two bytes. Hands out the byte found.
    Either { first: u8, second: u8 },
}

impl View for Token {
    type V = TokenView;

    open spec fn view(&self) -> TokenView {
        match *self {
            Token::Tag { text } => TokenView::Tag { text: text.spec_bytes() },
            Token::Unsigned { limit } => TokenView::Unsigned { limit },
            Token::Signed => TokenView::Signed,
            Token::Either { first, second } => TokenView::Either { first, second },
        }
    }
}

/// The largest limit that an unsigned token may name.
pub const MAX_UNSIGNED_LIMIT: u64 = 0xffff_ffff_ffff;

/// Whether every unsigned token of a layout names a limit that the
/// tokenizer can hold.
pub open spec fn is_layout(layout: Seq<TokenView>) -> bool {
    forall|i: int|
        0 <= i < layout.len() ==> (#[trigger] layout[i] matches TokenView::Unsigned { limit }
            ==> limit <= MAX_UNSIGNED_LIMIT)
}

/// What one token reads at position `at`: the number it hands out and the
/// position behind it, or nothing where the line does not hold the token
/// there.
pub open spec fn token_at(line: Seq<u8>, at: int, token: TokenView) -> Option<(int, int)> {
    match token {
        TokenView::Tag { text } => if has_tag_at(line, at, text) {
            Some((0, at + text.len()))
        } else {
            None
        },
        TokenView::Unsigned { limit } => match unsigned_at(line, at, limit as nat) {
            Some((v, end)) => Some((v as int, end)),
            None => None,
        },
        TokenView::Signed => signed_at(line, at),
        TokenView::Either { first, second } => if 0 <= at < line.len() && (line[at] == first
            || line[at] == second) {
            Some((line[at] as int, at + 1))
        } else {
            None
        },
    }
}

/// What a layout reads from the first byte of a line: the numbers that its
/// tokens hand out, in order, and the position behind the last token, or
/// nothing where a token is not found.
pub open spec fn scan_of(line: Seq<u8>, layout: Seq<TokenView>) -> Option<(Seq<int>, int)>
    decreases layout.len(),
{
    if layout.len() == 0 {
        Some((Seq::empty(), 0))
    } else {
        match scan_of(line, layout.drop_last()) {
            Some((values, at)) => match token_at(line, at, layout.last()) {
                Some((v, end)) => Some((values.push(v), end)),
                None => None,
            },
            None => None,
        }
    }
}

/// The numbers that a layout reads from a line, if all its tokens are
/// found.
pub open spec fn scanned(line: Seq<u8>, layout: Seq<TokenView>) -> Option<Seq<int>> {
    match scan_of(line, layout) {
        Some((values, _)) => Some(values),
        None => None,
    }
}

/// Whether `value` is a number that `token` can hand out.
pub open spec fn is_token_value(token: TokenView, value: int) -> bool {
    match token {
        TokenView::Tag { text } => value == 0,
        TokenView::Unsigned { limit } => 0 <= value <= limit,
        TokenView::Signed => -0x8000_0000 <= value <= 0x7fff_ffff,
        TokenView::Either { first, second } => value == first || value == second,
    }
}

/// Every number that a layout hands out is one that its token can hand
/// out.
pub proof fn lemma_scan_values(line: Seq<u8>, layout: Seq<TokenView>)
    ensures
        scan_of(line, layout) matches Some((values, end)) ==> values.len() == layout.len()
            && forall|i: int|
            0 <= i < layout.len() ==> is_token_value(#[trigger] layout[i], values[i]),
    decreases layout.len(),
{
    if layout.len() > 0 {
        lemma_scan_values(line, layout.drop_last());
        match scan_of(line, layout.drop_last()) {
            Some((values, at)) => {
                match token_at(line, at, layout.last()) {
                    Some((v, end)) => {
                        assert(is_token_value(layout.last(), v));
                        assert forall|i: int| 0 <= i < layout.len() implies is_token_value(
                            #[trigger] layout[i],
                            values.push(v)[i],
                        ) by {
                            if i < layout.len() - 1 {
                                assert(layout[i] == layout.drop_last()[i]);
                            }
                        }
                    },
                    None => {},
                }
            },
            None => {},
        }
    }
}

/// The layout that a table of tokens writes.
pub open spec fn layout_of(table: Seq<Token>) -> Seq<TokenView> {
    table.map_values(|t: Token| t@)
}

/// Where a shorter layout finds nothing, a longer one finds nothing; and
/// where a layout finds its tokens, it hands out one number for each.
pub proof fn lemma_scan_prefix(line: Seq<u8>, layout: Seq<TokenView>, k: int)
    requires
        0 <= k <= layout.len(),
    ensures
        scan_of(line, layout.take(k)).is_none() ==> scan_of(line, layout).is_none(),
        scan_of(line, layout) matches Some((values, end)) ==> values.len() == layout.len(),
    decreases layout.len(),
{
    if layout.len() > 0 {
        if k == layout.len() {
            assert(layout.take(k) =~= layout);
            lemma_scan_prefix(line, layout.drop_last(), 0);
        } else {
            assert(layout.drop_last().take(k) =~= layout.take(k));
            lemma_scan_prefix(line, layout.drop_last(), k);
        }
    } else {
        assert(layout.take(k) =~= layout);
    }
}

/// Reads one token at position `at`.
pub fn read_token(line: &[u8], at: usize, token: &Token) -> (r: Option<(i64, usize)>)
    requires
        token@ matches TokenView::Unsigned { limit } ==> limit <= MAX_UNSIGNED_LIMIT,
    ensures
        match token_at(line@, at as int, token@) {
            Some((v, end)) => r == Some((v as i64, end as usize)) && i64::MIN <= v <= i64::MAX
                && at <= end <= line@.len(),
            None => r.is_none(),
        },
{
    match token {
        Token::Tag { text } => {
            let bytes = text.as_bytes();
            let found = tag_at(line, at, bytes);
            assert(found == has_tag_at(line@, at as int, text.spec_bytes()));
            if found {
                assert(at + bytes@.len() <= line@.len());
                assert(line@.len() == line.len());
                assert(bytes@.len() == bytes.len());
                Some((0i64, at + bytes.len()))
            } else {
                None
            }
        },
        Token::Unsigned { limit } => match read_unsigned(line, at, *limit) {
            Some((v, end)) => Some((v as i64, end)),
            None => None,
        },
        Token::Signed => match read_i32(line, at) {
            Some((v, end)) => Some((v as i64, end)),
            None => None,
        },
        Token::Either { first, second } => {
            if at < line.len() && (line[at] == *first || line[at] == *second) {
                Some((line[at] as i64, at + 1))
            } else {
                None
            }
        },
    }
}

/// Reads `line` along `table`.
pub fn scan(line: &[u8], table: &[Token]) -> (r: Option<Vec<i64>>)
    requires
        is_layout(layout_of(table@)),
    ensures
        match scanned(line@, layout_of(table@)) {
            Some(values) => r.is_some() && r.unwrap()@.len() == table@.len() && values.len()
                == table@.len() && forall|i: int|
                0 <= i < values.len() ==> (#[trigger] r.unwrap()@[i]) as int == values[i]
                    && is_token_value(layout_of(table@)[i], values[i]),
            None => r.is_none(),
        },
{
    let ghost layout = layout_of(table@);
    let mut values: Vec<i64> = Vec::new();
    let mut at: usize = 0;
    let mut i: usize = 0;
    while i < table.len()
        invariant
            i <= table.len(),
            layout == layout_of(table@),
            is_layout(layout),
            values@.len() == i,
            scan_of(line@, layout.take(i as int)) matches Some((seen, pos)) && pos == at
                && seen.len() == i && forall|j: int|
                0 <= j < i ==> (#[trigger] values@[j]) as int == seen[j],
        decreases table.len() - i,
    {
        let ghost before = scan_of(line@, layout.take(i as int)).unwrap();
        proof {
            assert(layout.take(i + 1).drop_last() =~= layout.take(i as int));
            assert(layout.take(i + 1).last() == layout[i as int]);
            assert(layout[i as int] == table@[i as int]@);
        }
        let found = read_token(line, at, &table[i]);
        match found {
            Some((v, end)) => {
                proof {
                    assert(line@.len() == line.len());
                    assert(token_at(line@, at as int, layout[i as int]) == Some(
                        (v as int, end as int),
                    ));
                    assert(scan_of(line@, layout.take(i + 1)) == Some(
                        (before.0.push(v as int), end as int),
                    ));
                }
                values.push(v);
                at = end;
            },
            None => {
                proof {
                    lemma_scan_prefix(line@, layout, i + 1);
                }
                return None;
            },
        }
        i += 1;
    }
    proof {
        assert(layout.take(table.len() as int) =~= layout);
        lemma_scan_values(line@, layout);
    }
    Some(values)
}

} // verus!
