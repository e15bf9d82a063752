//! Compact JSON text of a value, as the decoder's companion serializer
//! writes it: `null`, `true` and `false`, decimal integers, quoted strings
//! with the short escapes and `\u00XX` for the other control characters,
//! and comma-separated arrays and objects. Coercion errors name the
//! offending value with this rendering.

use vstd::prelude::*;
use vstd::string::StrSliceExecFns;
use vstd::string::StringExecFns;

use crate::hex::nibble_char;
use crate::hex::nibble_str;
use crate::json::jview;
use crate::json::jview_entries;
use crate::json::jview_seq;
use crate::json::lemma_jview_entries;
use crate::json::lemma_jview_seq;
use crate::json::num_view;
use crate::json::JsonNum;
use crate::json::JsonVal;
use crate::json::JsonView;
use crate::json::NumView;

verus! {

/// The text one character contributes inside a quoted JSON string: itself,
/// unless it is a quote, a backslash, or a control character.
pub open spec fn esc_char(c: char) -> Seq<char> {
    let u = c as u32;
    if c == '"' {
        seq!['\\', '"']
    } else if c == '\\' {
        seq!['\\', '\\']
    } else if c == '\u{8}' {
        seq!['\\', 'b']
    } else if c == '\t' {
        seq!['\\', 't']
    } else if c == '\n' {
        seq!['\\', 'n']
    } else if c == '\u{c}' {
        seq!['\\', 'f']
    } else if c == '\r' {
        seq!['\\', 'r']
    } else if u < 32 {
        seq!['\\', 'u', '0', '0', nibble_char((u / 16) as int), nibble_char((u % 16) as int)]
    } else {
        seq![c]
    }
}

/// The escaped text of a string's characters from position `i` on.
pub open spec fn esc_from(s: Seq<char>, i: int) -> Seq<char>
    decreases s.len() - i,
{
    if i < 0 || i >= s.len() {
        Seq::empty()
    } else {
        esc_char(s[i]) + esc_from(s, i + 1)
    }
}

/// The decimal digits of a number, most significant first.
pub open spec fn dec_digits(n: nat) -> Seq<char>
    decreases n,
{
    if n < 10 {
        seq![nibble_char(n as int)]
    } else {
        dec_digits(n / 10).push(nibble_char((n % 10) as int))
    }
}

/// The text of a number: integers in decimal, any other number as the text
/// the decoder reported for it.
pub open spec fn spec_num_text(n: NumView) -> Seq<char> {
    match n {
        NumView::Uint(u) => dec_digits(u as nat),
        NumView::Int(i) => if i < 0 {
            seq!['-'] + dec_digits((-i) as nat)
        } else {
            dec_digits(i as nat)
        },
        NumView::Float(s) => s,
    }
}

/// The compact JSON text of a value.
pub open spec fn spec_json_text(v: JsonView) -> Seq<char>
    decreases v, 0int,
{
    match v {
        JsonView::Null => "null"@,
        JsonView::Bool(b) => if b {
            "true"@
        } else {
            "false"@
        },
        JsonView::Num(n) => spec_num_text(n),
        JsonView::Str(s) => seq!['"'] + esc_from(s, 0) + seq!['"'],
        JsonView::Arr(a) => seq!['['] + spec_items_text(a, 0) + seq![']'],
        JsonView::Obj(m) => seq!['{'] + spec_entries_text(m, 0) + seq!['}'],
    }
}

/// The comma-separated texts of the array elements from position `i` on.
pub open spec fn spec_items_text(a: Seq<JsonView>, i: int) -> Seq<char>
    decreases a, a.len() - i,
{
    if i < 0 || i >= a.len() {
        Seq::empty()
    } else if i == a.len() - 1 {
        spec_json_text(a[i])
    } else {
        spec_json_text(a[i]) + seq![','] + spec_items_text(a, i + 1)
    }
}

/// The comma-separated texts of the object entries from position `i` on,
/// each a quoted key, a colon, and the value's text.
pub open spec fn spec_entries_text(m: Seq<(Seq<char>, JsonView)>, i: int) -> Seq<char>
    decreases m, m.len() - i,
{
    if i < 0 || i >= m.len() {
        Seq::empty()
    } else {
        let entry = seq!['"'] + esc_from(m[i].0, 0) + seq!['"', ':'] + spec_json_text(m[i].1);
        if i == m.len() - 1 {
            entry
        } else {
            entry + seq![','] + spec_entries_text(m, i + 1)
        }
    }
}

/// Appends the escaped text of a string's characters.
fn append_escaped(out: &mut String, s: &str)
    ensures
        final(out)@ == old(out)@ + esc_from(s@, 0),
{
    let ghost base = out@;
    let n = s.unicode_len();
    let mut i: usize = 0;
    proof {
        assert(out@ + esc_from(s@, 0) =~= base + esc_from(s@, 0));
    }
    while i < n
        invariant
            i <= n,
            n == s@.len(),
            out@ + esc_from(s@, i as int) == base + esc_from(s@, 0),
        decreases n - i,
    {
        let ghost before = out@;
        let c = s.get_char(i);
        let u = c as u32;
        if c == '"' {
            out.append("\\\"");
            proof {
                reveal_strlit("\\\"");
                assert(out@ =~= before + esc_char(c));
            }
        } else if c == '\\' {
            out.append("\\\\");
            proof {
                reveal_strlit("\\\\");
                assert(out@ =~= before + esc_char(c));
            }
        } else if c == '\u{8}' {
            out.append("\\b");
            proof {
                reveal_strlit("\\b");
                assert(out@ =~= before + esc_char(c));
            }
        } else if c == '\t' {
            out.append("\\t");
            proof {
                reveal_strlit("\\t");
                assert(out@ =~= before + esc_char(c));
            }
        } else if c == '\n' {
            out.append("\\n");
            proof {
                reveal_strlit("\\n");
                assert(out@ =~= before + esc_char(c));
            }
        } else if c == '\u{c}' {
            out.append("\\f");
            proof {
                reveal_strlit("\\f");
                assert(out@ =~= before + esc_char(c));
            }
        } else if c == '\r' {
            out.append("\\r");
            proof {
                reveal_strlit("\\r");
                assert(out@ =~= before + esc_char(c));
            }
        } else if u < 32 {
            out.append("\\u00");
            out.append(nibble_str((u / 16) as u8));
            out.append(nibble_str((u % 16) as u8));
            proof {
                reveal_strlit("\\u00");
                assert(out@ =~= before + esc_char(c));
            }
        } else {
            out.append(s.substring_char(i, i + 1));
            proof {
                assert(s@.subrange(i as int, i as int + 1) =~= seq![s@[i as int]]);
                assert(out@ =~= before + esc_char(c));
            }
        }
        proof {
            assert(esc_from(s@, i as int) == esc_char(s@[i as int]) + esc_from(s@, i + 1));
            assert(out@ + esc_from(s@, i + 1) =~= before + esc_from(s@, i as int));
        }
        i = i + 1;
    }
    proof {
        assert(esc_from(s@, n as int) == Seq::<char>::empty());
        assert(out@ =~= out@ + esc_from(s@, n as int));
    }
}

/// Appends the decimal digits of a value.
fn append_dec(out: &mut String, n: u64)
    ensures
        final(out)@ == old(out)@ + dec_digits(n as nat),
    decreases n,
{
    let ghost base = out@;
    if n >= 10 {
        proof {
            assert(n / 10 < n) by (nonlinear_arith)
                requires
                    n >= 10,
            {
            }
        }
        append_dec(out, n / 10);
    }
    out.append(nibble_str((n % 10) as u8));
    proof {
        if n >= 10 {
            assert(dec_digits(n as nat) =~= dec_digits((n / 10) as nat) + seq![
                nibble_char((n % 10) as int),
            ]);
            assert(out@ =~= base + dec_digits(n as nat));
        } else {
            assert(n % 10 == n);
            assert(out@ =~= base + dec_digits(n as nat));
        }
    }
}

/// The text of a number.
fn num_text(n: &JsonNum) -> (r: String)
    ensures
        r@ == spec_num_text(num_view(*n)),
{
    match n {
        JsonNum::Uint(u) => {
            let mut out = String::new();
            append_dec(&mut out, *u);
            proof {
                assert(out@ =~= dec_digits(*u as nat));
            }
            out
        },
        JsonNum::Int(i) => {
            if *i < 0 {
                let magnitude = (-((*i) as i128)) as u64;
                let mut out = String::from_str("-");
                proof {
                    reveal_strlit("-");
                }
                append_dec(&mut out, magnitude);
                proof {
                    assert(out@ =~= seq!['-'] + dec_digits((-(*i as int)) as nat));
                }
                out
            } else {
                let mut out = String::new();
                append_dec(&mut out, (*i) as u64);
                proof {
                    assert(out@ =~= dec_digits(*i as nat));
                }
                out
            }
        },
        JsonNum::Float(s) => s.clone(),
    }
}

/// The compact JSON text of a value, as the decoder's companion serializer
/// writes it.
#[verifier::loop_isolation(false)]
pub fn json_text(v: &JsonVal) -> (r: String)
    ensures
        r@ == spec_json_text(jview(*v)),
    decreases *v,
{
    match v {
        JsonVal::Null => {
            let r = String::from_str("null");
            r
        },
        JsonVal::Bool(b) => {
            if *b {
                String::from_str("true")
            } else {
                String::from_str("false")
            }
        },
        JsonVal::Num(n) => num_text(n),
        JsonVal::Str(s) => {
            let mut out = String::from_str("\"");
            proof {
                reveal_strlit("\"");
                assert(out@ =~= seq!['"']);
            }
            append_escaped(&mut out, s.as_str());
            out.append("\"");
            proof {
                assert(out@ =~= seq!['"'] + esc_from(s@, 0) + seq!['"']);
            }
            out
        },
        JsonVal::Arr(a) => {
            let ghost av = jview_seq(a@);
            proof {
                lemma_jview_seq(a@);
            }
            let mut out = String::from_str("[");
            proof {
                reveal_strlit("[");
                assert(out@ =~= seq!['[']);
            }
            let n = a.len();
            let mut i: usize = 0;
            while i < n
                invariant
                    i <= n,
                    if i == 0 {
                        out@ == seq!['[']
                    } else if i == n {
                        out@ == seq!['['] + spec_items_text(av, 0)
                    } else {
                        out@ + seq![','] + spec_items_text(av, i as int) == seq!['[']
                            + spec_items_text(av, 0)
                    },
                decreases n - i,
            {
                let ghost before = out@;
                if i > 0 {
                    out.append(",");
                    proof {
                        reveal_strlit(",");
                        assert(out@ =~= before + seq![',']);
                    }
                }
                let t = json_text(&a[i]);
                out.append(t.as_str());
                proof {
                    assert(t@ == spec_json_text(av[i as int]));
                    if i == 0 {
                        if i + 1 == n {
                            assert(spec_items_text(av, 0) == spec_json_text(av[0]));
                            assert(out@ =~= seq!['['] + spec_items_text(av, 0));
                        } else {
                            assert(spec_items_text(av, 0) == spec_json_text(av[0]) + seq![',']
                                + spec_items_text(av, 1));
                            assert(out@ + seq![','] + spec_items_text(av, 1) =~= seq!['[']
                                + spec_items_text(av, 0));
                        }
                    } else {
                        if i + 1 == n {
                            assert(spec_items_text(av, i as int) == spec_json_text(
                                av[i as int],
                            ));
                            assert(out@ =~= before + seq![','] + spec_items_text(av, i as int));
                            assert(out@ =~= seq!['['] + spec_items_text(av, 0));
                        } else {
                            assert(spec_items_text(av, i as int) == spec_json_text(av[i as int])
                                + seq![','] + spec_items_text(av, i + 1));
                            assert(out@ + seq![','] + spec_items_text(av, i + 1) =~= before
                                + seq![','] + spec_items_text(av, i as int));
                            assert(out@ + seq![','] + spec_items_text(av, i + 1) =~= seq!['[']
                                + spec_items_text(av, 0));
                        }
                    }
                }
                i = i + 1;
            }
            out.append("]");
            proof {
                reveal_strlit("]");
                if n == 0 {
                    assert(spec_items_text(av, 0) == Seq::<char>::empty());
                }
                assert(out@ =~= seq!['['] + spec_items_text(av, 0) + seq![']']);
            }
            out
        },
        JsonVal::Obj(m) => {
            let ghost ev = jview_entries(m@);
            proof {
                lemma_jview_entries(m@);
            }
            let mut out = String::from_str("{");
            proof {
                reveal_strlit("{");
                assert(out@ =~= seq!['{']);
            }
            let n = m.len();
            let mut i: usize = 0;
            while i < n
                invariant
                    i <= n,
                    if i == 0 {
                        out@ == seq!['{']
                    } else if i == n {
                        out@ == seq!['{'] + spec_entries_text(ev, 0)
                    } else {
                        out@ + seq![','] + spec_entries_text(ev, i as int) == seq!['{']
                            + spec_entries_text(ev, 0)
                    },
                decreases n - i,
            {
                let ghost before = out@;
                if i > 0 {
                    out.append(",");
                    proof {
                        reveal_strlit(",");
                        assert(out@ =~= before + seq![',']);
                    }
                }
                let ghost comma_done = out@;
                out.append("\"");
                append_escaped(&mut out, m[i].0.as_str());
                out.append("\":");
                let t = json_text(&m[i].1);
                out.append(t.as_str());
                proof {
                    reveal_strlit("\"");
                    reveal_strlit("\":");
                    assert(t@ == spec_json_text(ev[i as int].1));
                    let entry = seq!['"'] + esc_from(ev[i as int].0, 0) + seq!['"', ':']
                        + spec_json_text(ev[i as int].1);
                    assert(out@ =~= comma_done + entry);
                    if i == 0 {
                        if i + 1 == n {
                            assert(spec_entries_text(ev, 0) == entry);
                            assert(out@ =~= seq!['{'] + spec_entries_text(ev, 0));
                        } else {
                            assert(spec_entries_text(ev, 0) == entry + seq![',']
                                + spec_entries_text(ev, 1));
                            assert(out@ + seq![','] + spec_entries_text(ev, 1) =~= seq!['{']
                                + spec_entries_text(ev, 0));
                        }
                    } else {
                        if i + 1 == n {
                            assert(spec_entries_text(ev, i as int) == entry);
                            assert(out@ =~= before + seq![','] + spec_entries_text(
                                ev,
                                i as int,
                            ));
                            assert(out@ =~= seq!['{'] + spec_entries_text(ev, 0));
                        } else {
                            assert(spec_entries_text(ev, i as int) == entry + seq![',']
                                + spec_entries_text(ev, i + 1));
                            assert(out@ + seq![','] + spec_entries_text(ev, i + 1) =~= before
                                + seq![','] + spec_entries_text(ev, i as int));
                            assert(out@ + seq![','] + spec_entries_text(ev, i + 1) =~= seq!['{']
                                + spec_entries_text(ev, 0));
                        }
                    }
                }
                i = i + 1;
            }
            out.append("}");
            proof {
                reveal_strlit("}");
                if n == 0 {
                    assert(spec_entries_text(ev, 0) == Seq::<char>::empty());
                }
                assert(out@ =~= seq!['{'] + spec_entries_text(ev, 0) + seq!['}']);
            }
            out
        },
    }
}

} // verus!
