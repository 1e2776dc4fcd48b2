//! Pieces of the simulations' log lines: the tick prefix, a summary of the
//! bids, and a list of ids written the way `{:?}` writes a list of strings.

use vstd::prelude::*;

use crate::text::{decimal, decimal_text};
use crate::types::AuctionBid;

verus! {

/// The prefix of every log line of tick `tick`.
pub open spec fn tick_prefix(tick: nat) -> Seq<char> {
    "[t="@ + decimal(tick) + "] "@
}

/// One bid in a bid summary: its bidder, ETA and battery.
pub open spec fn bid_text(b: AuctionBid) -> Seq<char> {
    b.bidder@ + "(eta="@ + decimal(b.eta_s as nat) + "s,bat="@ + decimal(b.battery_pct as nat) + "%)"@
}

/// The bids, each as `bid_text`, separated by `", "`.
pub open spec fn bids_text(bids: Seq<AuctionBid>) -> Seq<char>
    decreases bids.len(),
{
    if bids.len() == 0 {
        seq![]
    } else if bids.len() == 1 {
        bid_text(bids[0])
    } else {
        bids_text(bids.drop_last()) + ", "@ + bid_text(bids.last())
    }
}

/// A digit of a hexadecimal number, in lower case.
pub open spec fn hex_digit(d: nat) -> char {
    if d < 10 {
        crate::text::digit_char(d)
    } else if d == 10 {
        'a'
    } else if d == 11 {
        'b'
    } else if d == 12 {
        'c'
    } else if d == 13 {
        'd'
    } else if d == 14 {
        'e'
    } else {
        'f'
    }
}

/// The hexadecimal text of `n` in lower case, without leading zeros.
pub open spec fn hex(n: nat) -> Seq<char>
    decreases n,
{
    if n < 16 {
        seq![hex_digit(n)]
    } else {
        hex(n / 16).push(hex_digit(n % 16))
    }
}

/// A control character: below U+0020, U+007F, or from U+0080 to U+009F.
pub open spec fn is_control(c: char) -> bool {
    (c as nat) < 0x20 || (0x7f <= (c as nat) && (c as nat) < 0xa0)
}

/// One character inside a quoted string: quotes, backslashes, newlines,
/// carriage returns, tabs and NUL are written as their short escapes, any
/// other control character as `\u{..}` with its code in hexadecimal, and
/// any other character as it is (so, unlike `{:?}`, combining marks and
/// the non-printable characters outside the control range are not
/// escaped).
pub open spec fn escaped_char(c: char) -> Seq<char> {
    if c == '"' {
        "\\\""@
    } else if c == '\\' {
        "\\\\"@
    } else if c == '\n' {
        "\\n"@
    } else if c == '\r' {
        "\\r"@
    } else if c == '\t' {
        "\\t"@
    } else if c == '\0' {
        "\\0"@
    } else if is_control(c) {
        "\\u{"@ + hex(c as nat) + "}"@
    } else {
        seq![c]
    }
}

/// The characters of `s`, each escaped.
pub open spec fn escaped(s: Seq<char>) -> Seq<char>
    decreases s.len(),
{
    if s.len() == 0 {
        seq![]
    } else {
        escaped(s.drop_last()) + escaped_char(s.last())
    }
}

/// `s` in quotes, escaped.
pub open spec fn quoted(s: Seq<char>) -> Seq<char> {
    "\""@ + escaped(s) + "\""@
}

/// The ids, each quoted, separated by `", "`.
pub open spec fn quoted_items(ids: Seq<Seq<char>>) -> Seq<char>
    decreases ids.len(),
{
    if ids.len() == 0 {
        seq![]
    } else if ids.len() == 1 {
        quoted(ids[0])
    } else {
        quoted_items(ids.drop_last()) + ", "@ + quoted(ids.last())
    }
}

/// The ids as a bracketed list of quoted strings.
pub open spec fn id_list_text(ids: Seq<Seq<char>>) -> Seq<char> {
    "["@ + quoted_items(ids) + "]"@
}

/// The prefix of the log lines of tick `tick`.
pub fn tick_line(tick: u64) -> (r: String)
    ensures
        r@ == tick_prefix(tick as nat),
{
    let mut s = String::from_str("[t=");
    s.append(decimal_text(tick).as_str());
    s.append("] ");
    s
}

/// The summary of `bids`.
pub fn bids_line(bids: &Vec<AuctionBid>) -> (r: String)
    ensures
        r@ == bids_text(bids@),
{
    let n = bids.len();
    let mut s = String::new();
    let mut i: usize = 0;
    while i < n
        invariant
            n == bids@.len(),
            i <= n,
            s@ == bids_text(bids@.take(i as int)),
        decreases n - i,
    {
        let b = &bids[i];
        if i > 0 {
            s.append(", ");
        }
        s.append(b.bidder.as_str());
        s.append("(eta=");
        s.append(decimal_text(b.eta_s as u64).as_str());
        s.append("s,bat=");
        s.append(decimal_text(b.battery_pct as u64).as_str());
        s.append("%)");
        proof {
            let t = bids@.take(i + 1);
            assert(t.drop_last() =~= bids@.take(i as int));
            assert(t.last() == bids@[i as int]);
            if i == 0 {
                assert(t.len() == 1);
            }
        }
        i = i + 1;
    }
    proof {
        assert(bids@.take(n as int) =~= bids@);
    }
    s
}

/// The one-character text of the hexadecimal digit `d`.
fn hex_digit_str(d: u32) -> (r: &'static str)
    requires
        d < 16,
    ensures
        r@ == seq![hex_digit(d as nat)],
{
    proof {
        reveal_strlit("0");
        reveal_strlit("1");
        reveal_strlit("2");
        reveal_strlit("3");
        reveal_strlit("4");
        reveal_strlit("5");
        reveal_strlit("6");
        reveal_strlit("7");
        reveal_strlit("8");
        reveal_strlit("9");
        reveal_strlit("a");
        reveal_strlit("b");
        reveal_strlit("c");
        reveal_strlit("d");
        reveal_strlit("e");
        reveal_strlit("f");
    }
    if d == 0 {
        "0"
    } else if d == 1 {
        "1"
    } else if d == 2 {
        "2"
    } else if d == 3 {
        "3"
    } else if d == 4 {
        "4"
    } else if d == 5 {
        "5"
    } else if d == 6 {
        "6"
    } else if d == 7 {
        "7"
    } else if d == 8 {
        "8"
    } else if d == 9 {
        "9"
    } else if d == 10 {
        "a"
    } else if d == 11 {
        "b"
    } else if d == 12 {
        "c"
    } else if d == 13 {
        "d"
    } else if d == 14 {
        "e"
    } else {
        "f"
    }
}

/// `s` in quotes, escaped.
pub fn quoted_line(s: &str) -> (r: String)
    ensures
        r@ == quoted(s@),
{
    let n = s.unicode_len();
    let mut out = String::from_str("\"");
    let mut i: usize = 0;
    while i < n
        invariant
            n == s@.len(),
            i <= n,
            out@ == "\""@ + escaped(s@.take(i as int)),
        decreases n - i,
    {
        let c = s.get_char(i);
        if c == '"' {
            out.append("\\\"");
        } else if c == '\\' {
            out.append("\\\\");
        } else if c == '\n' {
            out.append("\\n");
        } else if c == '\r' {
            out.append("\\r");
        } else if c == '\t' {
            out.append("\\t");
        } else if c == '\0' {
            out.append("\\0");
        } else if (c as u32) < 0x20 || (0x7f <= (c as u32) && (c as u32) < 0xa0) {
            let code: u32 = c as u32;
            out.append("\\u{");
            if code >= 16 {
                out.append(hex_digit_str(code / 16));
            }
            out.append(hex_digit_str(code % 16));
            out.append("}");
            proof {
                assert(code as nat == c as nat);
                if code >= 16 {
                    assert(hex((code / 16) as nat) == seq![hex_digit((code / 16) as nat)]);
                }
                assert(hex(code as nat) == (if code < 16 {
                    seq![hex_digit(code as nat)]
                } else {
                    seq![hex_digit((code / 16) as nat)].push(hex_digit((code % 16) as nat))
                }));
            }
        } else {
            let one = s.substring_char(i, i + 1);
            proof {
                assert(one@ =~= seq![c]);
            }
            out.append(one);
        }
        proof {
            let t = s@.take(i + 1);
            assert(t.drop_last() =~= s@.take(i as int));
            assert(t.last() == c);
        }
        i = i + 1;
    }
    out.append("\"");
    proof {
        assert(s@.take(n as int) =~= s@);
    }
    out
}

/// The ids as a bracketed list of quoted strings.
pub fn id_list_line(ids: &Vec<String>) -> (r: String)
    ensures
        r@ == id_list_text(ids@.map_values(|x: String| x@)),
{
    let ghost v = ids@.map_values(|x: String| x@);
    let n = ids.len();
    let mut s = String::from_str("[");
    let mut i: usize = 0;
    while i < n
        invariant
            n == ids@.len(),
            v == ids@.map_values(|x: String| x@),
            i <= n,
            s@ == "["@ + quoted_items(v.take(i as int)),
        decreases n - i,
    {
        if i > 0 {
            s.append(", ");
        }
        let q = quoted_line(ids[i].as_str());
        s.append(q.as_str());
        proof {
            let t = v.take(i + 1);
            assert(t.drop_last() =~= v.take(i as int));
            assert(t.last() == ids@[i as int]@);
            if i == 0 {
                assert(t.len() == 1);
            }
        }
        i = i + 1;
    }
    s.append("]");
    proof {
        assert(v.take(n as int) =~= v);
    }
    s
}

} // verus!
