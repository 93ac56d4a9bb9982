//! Rendering an enriched event as one line of JSON text.
//!
//! The serialized form is what consumers receive and what the dedup
//! window compares, so the library pins it down to the character: field
//! order, escaping, and the handling of the one numeric field.  String
//! fields are escaped as JSON demands: quote, backslash and the named
//! control characters by a two-character escape, any other control
//! character by a `\u00XX` escape.  The entropy field is spliced in as
//! a bare number after a syntactic check; text that is no decimal
//! number renders as `0` so the output is always well-formed JSON.

use vstd::prelude::*;
use crate::metadata::{MetadataSnapshot, MetadataSnapshotModel};
use crate::normalize::{NormalizedEvent, NormalizedEventModel};
use crate::numfmt::{dec_rep, dec_string, size_text, format_file_size_i64};
use crate::ops::{label_of, irp_label_of, irp_op_to_string};
use crate::path::first_index_of;
use crate::strutil::chars_of;
use crate::time::{timestamp_text_of, timestamp_text};

verus! {

/// Lowercase hexadecimal digit of a value below sixteen.
pub open spec fn hex_char(d: nat) -> char {
    if d < 10 {
        crate::numfmt::digit_char(d)
    } else if d == 10 {
        'a'
    } else if d == 11 {
        'b'
    } else if d == 12 {
        'c'
    } else if d == 13 {
        'd'
    } else if d == 14 {
        'e'
    } else {
        'f'
    }
}

/// The JSON escape of one character.
pub open spec fn json_escaped_char(c: char) -> Seq<char> {
    if c == '"' {
        seq!['\\', '"']
    } else if c == '\\' {
        seq!['\\', '\\']
    } else if c == '\u{8}' {
        seq!['\\', 'b']
    } else if c == '\u{c}' {
        seq!['\\', 'f']
    } else if c == '\n' {
        seq!['\\', 'n']
    } else if c == '\r' {
        seq!['\\', 'r']
    } else if c == '\t' {
        seq!['\\', 't']
    } else if (c as u32) < 0x20 {
        seq!['\\', 'u', '0', '0', hex_char((c as u32) as nat / 16), hex_char(
            (c as u32) as nat % 16,
        )]
    } else {
        seq![c]
    }
}

/// The JSON escape of a whole string.
pub open spec fn json_escaped(s: Seq<char>) -> Seq<char>
    decreases s.len(),
{
    if s.len() == 0 {
        Seq::empty()
    } else {
        json_escaped_char(s[0]) + json_escaped(s.skip(1))
    }
}

/// Lowercase hexadecimal digit of a nibble.
fn hex_of(d: u8) -> (r: char)
    requires
        d < 16,
    ensures
        r == hex_char(d as nat),
{
    match d {
        0 => '0',
        1 => '1',
        2 => '2',
        3 => '3',
        4 => '4',
        5 => '5',
        6 => '6',
        7 => '7',
        8 => '8',
        9 => '9',
        10 => 'a',
        11 => 'b',
        12 => 'c',
        13 => 'd',
        14 => 'e',
        _ => 'f',
    }
}

/// Appends the JSON escape of one character.
fn escape_char_into(out: &mut String, c: char)
    ensures
        final(out)@ == old(out)@ + json_escaped_char(c),
{
    let ghost prev = out@;
    if c == '"' {
        out.push('\\');
        out.push('"');
        proof {
            assert(prev.push('\\').push('"') =~= prev + json_escaped_char(c));
        }
    } else if c == '\\' {
        out.push('\\');
        out.push('\\');
        proof {
            assert(prev.push('\\').push('\\') =~= prev + json_escaped_char(c));
        }
    } else if c == '\u{8}' {
        out.push('\\');
        out.push('b');
        proof {
            assert(prev.push('\\').push('b') =~= prev + json_escaped_char(c));
        }
    } else if c == '\u{c}' {
        out.push('\\');
        out.push('f');
        proof {
            assert(prev.push('\\').push('f') =~= prev + json_escaped_char(c));
        }
    } else if c == '\n' {
        out.push('\\');
        out.push('n');
        proof {
            assert(prev.push('\\').push('n') =~= prev + json_escaped_char(c));
        }
    } else if c == '\r' {
        out.push('\\');
        out.push('r');
        proof {
            assert(prev.push('\\').push('r') =~= prev + json_escaped_char(c));
        }
    } else if c == '\t' {
        out.push('\\');
        out.push('t');
        proof {
            assert(prev.push('\\').push('t') =~= prev + json_escaped_char(c));
        }
    } else {
        let u = c as u32;
        if u < 0x20 {
            let hi = (u / 16) as u8;
            let lo = (u % 16) as u8;
            out.push('\\');
            out.push('u');
            out.push('0');
            out.push('0');
            out.push(hex_of(hi));
            out.push(hex_of(lo));
            proof {
                assert(prev.push('\\').push('u').push('0').push('0').push(
                    hex_char(hi as nat),
                ).push(hex_char(lo as nat)) =~= prev + json_escaped_char(c));
            }
        } else {
            out.push(c);
            proof {
                assert(prev.push(c) =~= prev + json_escaped_char(c));
            }
        }
    }
}

/// Appends the JSON escape of a string.
pub fn escape_into(out: &mut String, s: &str)
    ensures
        final(out)@ == old(out)@ + json_escaped(s@),
{
    let n: usize = s.unicode_len();
    let mut i: usize = 0;
    proof {
        assert(s@.skip(0) =~= s@);
        assert(old(out)@ + json_escaped(s@.skip(0)) =~= old(out)@ + json_escaped(s@));
    }
    while i < n
        invariant
            i <= n,
            n == s@.len(),
            out@ + json_escaped(s@.skip(i as int)) == old(out)@ + json_escaped(s@),
        decreases n - i,
    {
        let c = s.get_char(i);
        let ghost before = out@;
        escape_char_into(out, c);
        proof {
            let rest = s@.skip(i as int);
            assert(rest[0] == s@[i as int]);
            assert(rest.skip(1) =~= s@.skip(i + 1));
            assert(before + json_escaped_char(c) + json_escaped(s@.skip(i + 1)) =~= before + (
            json_escaped_char(c) + json_escaped(s@.skip(i + 1))));
        }
        i = i + 1;
    }
    proof {
        assert(s@.skip(n as int) =~= Seq::<char>::empty());
        assert(out@ + json_escaped(s@.skip(n as int)) =~= out@);
    }
}

/// Holds when every character of `s` is a decimal digit.
pub open spec fn all_digits(s: Seq<char>) -> bool {
    forall|i: int| 0 <= i < s.len() ==> '0' <= #[trigger] s[i] <= '9'
}

/// Holds for the decimal number forms JSON accepts here: an optional
/// minus sign, digits, and at most one interior decimal point with
/// digits on both sides.
pub open spec fn is_json_number(s: Seq<char>) -> bool {
    let body = if s.len() > 0 && s[0] == '-' {
        s.skip(1)
    } else {
        s
    };
    &&& body.len() > 0
    &&& match first_index_of(body, '.') {
        None => all_digits(body),
        Some(i) => 0 < i && i + 1 < body.len() && all_digits(body.take(i)) && all_digits(
            body.skip(i + 1),
        ),
    }
}

/// Decides whether every character of `v` in `[from, to)` is a digit.
fn digits_in_range(v: &Vec<char>, from: usize, to: usize) -> (r: bool)
    requires
        from <= to <= v@.len(),
    ensures
        r == all_digits(v@.subrange(from as int, to as int)),
{
    let mut i: usize = from;
    while i < to
        invariant
            from <= i <= to <= v@.len(),
            forall|j: int| from <= j < i ==> '0' <= #[trigger] v@[j] <= '9',
        decreases to - i,
    {
        let c = v[i];
        if c < '0' || c > '9' {
            proof {
                assert(v@.subrange(from as int, to as int)[i - from] == v@[i as int]);
            }
            return false;
        }
        i = i + 1;
    }
    proof {
        assert forall|k: int| 0 <= k < to - from implies '0' <= #[trigger] v@.subrange(
            from as int,
            to as int,
        )[k] <= '9' by {
            assert(v@.subrange(from as int, to as int)[k] == v@[from + k]);
        }
    }
    true
}

/// Decides whether `s` is a decimal number form.
pub fn is_json_number_str(s: &str) -> (r: bool)
    ensures
        r == is_json_number(s@),
{
    let v = chars_of(s);
    let n: usize = v.len();
    let from: usize = if n > 0 && v[0] == '-' {
        1
    } else {
        0
    };
    let ghost body = if s@.len() > 0 && s@[0] == '-' {
        s@.skip(1)
    } else {
        s@
    };
    proof {
        assert(body =~= v@.subrange(from as int, n as int));
    }
    if n == from {
        return false;
    }
    let mut dot: Option<usize> = None;
    let mut i: usize = from;
    while i < n
        invariant
            from <= i <= n,
            n == v@.len(),
            v@ == s@,
            body == v@.subrange(from as int, n as int),
            match dot {
                Some(d) => from <= d < i && v@[d as int] == '.' && (forall|j: int|
                    from <= j < d ==> v@[j] != '.') && first_index_of(body, '.') == Some(
                    d - from,
                ),
                None => forall|j: int| from <= j < i ==> v@[j] != '.',
            },
        decreases n - i,
    {
        if v[i] == '.' && dot.is_none() {
            dot = Some(i);
            proof {
                lemma_first_index_found(body, '.', i - from);
            }
        }
        i = i + 1;
    }
    match dot {
        Some(d) => {
            proof {
                assert(body.take(d - from) =~= v@.subrange(from as int, d as int));
                assert(body.skip(d - from + 1) =~= v@.subrange(d + 1 as int, n as int));
            }
            if d == from || d + 1 == n {
                return false;
            }
            let digits_ahead = digits_in_range(&v, from, d);
            let digits_behind = digits_in_range(&v, d + 1, n);
            digits_ahead && digits_behind
        },
        None => {
            proof {
                lemma_first_index_absent(body, '.');
            }
            digits_in_range(&v, from, n)
        },
    }
}

/// A character found first at `at`, with none equal ahead of it, is the
/// first occurrence.
proof fn lemma_first_index_found(s: Seq<char>, c: char, at: int)
    requires
        0 <= at < s.len(),
        s[at] == c,
        forall|j: int| 0 <= j < at ==> s[j] != c,
    ensures
        first_index_of(s, c) == Some(at),
    decreases at,
{
    if at > 0 {
        lemma_first_index_found(s.skip(1), c, at - 1);
    }
}

/// A character occurring nowhere has no first occurrence.
proof fn lemma_first_index_absent(s: Seq<char>, c: char)
    requires
        forall|j: int| 0 <= j < s.len() ==> s[j] != c,
    ensures
        first_index_of(s, c) is None,
    decreases s.len(),
{
    if s.len() > 0 {
        lemma_first_index_absent(s.skip(1), c);
    }
}

/// The entropy field as spliced into the JSON text: the given text when
/// it is a decimal number form, `0` otherwise.
pub open spec fn entropy_field(s: Seq<char>) -> Seq<char> {
    if is_json_number(s) {
        s
    } else {
        "0"@
    }
}

/// The serialized form of one enriched event.
#[verifier::opaque]
pub open spec fn event_json(
    e: NormalizedEventModel,
    md: MetadataSnapshotModel,
    watcher: Seq<char>,
    pname: Seq<char>,
    ppath: Seq<char>,
    entropy: Seq<char>,
) -> Seq<char> {
    "{\"path\":\""@ + json_escaped(e.path) + "\",\"pid\":\""@ + json_escaped(
        dec_rep(e.pid as nat),
    ) + "\",\"event_type\":\""@ + json_escaped(label_of(e.kind)) + "\",\"timestamp\":\""@
        + json_escaped(timestamp_text_of(e.time_ms)) + "\",\"metadata\":{\"size\":\""@
        + json_escaped(md.size) + "\",\"created\":\""@ + json_escaped(md.created)
        + "\",\"modified\":\""@ + json_escaped(md.modified) + "\",\"accessed\":\""@ + json_escaped(
        md.accessed,
    ) + "\",\"readonly\":\""@ + json_escaped(md.readonly) + "\",\"is_encrypted\":\""@
        + json_escaped(md.is_encrypted) + "\",\"is_hidden\":\""@ + json_escaped(md.is_hidden)
        + "\",\"is_temporary\":\""@ + json_escaped(md.is_temporary) + "\"},\"watcher\":\""@
        + json_escaped(watcher) + "\",\"size\":\""@ + json_escaped(size_text(e.file_size))
        + "\",\"irp_operation\":\""@ + json_escaped(irp_label_of(e.irp_op)) + "\",\"entropy\":"@
        + entropy_field(entropy) + ",\"extension\":\""@ + json_escaped(e.extension)
        + "\",\"gid\":\""@ + json_escaped(dec_rep(e.gid as nat)) + "\",\"process_name\":\""@
        + json_escaped(pname) + "\",\"process_path\":\""@ + json_escaped(ppath) + "\"}"@
}

/// Renders one enriched event as JSON text.
pub fn render_event_json(
    ev: &NormalizedEvent,
    md: &MetadataSnapshot,
    watcher: &str,
    process_name: &str,
    process_path: &str,
    entropy_text: &str,
) -> (r: String)
    ensures
        r@ == event_json(ev@, md@, watcher@, process_name@, process_path@, entropy_text@),
{
    let mut r = String::new();
    proof {
        assert(Seq::<char>::empty() + "{\"path\":\""@ =~= "{\"path\":\""@);
    }
    r.append("{\"path\":\"");
    escape_into(&mut r, ev.path.as_str());
    r.append("\",\"pid\":\"");
    let pid_text = dec_string(ev.pid as u64);
    escape_into(&mut r, pid_text.as_str());
    r.append("\",\"event_type\":\"");
    escape_into(&mut r, ev.kind.label());
    r.append("\",\"timestamp\":\"");
    let ts = timestamp_text(ev.time_ms);
    escape_into(&mut r, ts.as_str());
    r.append("\",\"metadata\":{\"size\":\"");
    escape_into(&mut r, md.size.as_str());
    r.append("\",\"created\":\"");
    escape_into(&mut r, md.created.as_str());
    r.append("\",\"modified\":\"");
    escape_into(&mut r, md.modified.as_str());
    r.append("\",\"accessed\":\"");
    escape_into(&mut r, md.accessed.as_str());
    r.append("\",\"readonly\":\"");
    escape_into(&mut r, md.readonly.as_str());
    r.append("\",\"is_encrypted\":\"");
    escape_into(&mut r, md.is_encrypted.as_str());
    r.append("\",\"is_hidden\":\"");
    escape_into(&mut r, md.is_hidden.as_str());
    r.append("\",\"is_temporary\":\"");
    escape_into(&mut r, md.is_temporary.as_str());
    r.append("\"},\"watcher\":\"");
    escape_into(&mut r, watcher);
    r.append("\",\"size\":\"");
    let sz = format_file_size_i64(ev.file_size);
    escape_into(&mut r, sz.as_str());
    r.append("\",\"irp_operation\":\"");
    escape_into(&mut r, irp_op_to_string(ev.irp_op));
    r.append("\",\"entropy\":");
    if is_json_number_str(entropy_text) {
        r.append(entropy_text);
    } else {
        r.append("0");
    }
    r.append(",\"extension\":\"");
    escape_into(&mut r, ev.extension.as_str());
    r.append("\",\"gid\":\"");
    let gid_text = dec_string(ev.gid);
    escape_into(&mut r, gid_text.as_str());
    r.append("\",\"process_name\":\"");
    escape_into(&mut r, process_name);
    r.append("\",\"process_path\":\"");
    escape_into(&mut r, process_path);
    r.append("\"}");
    proof {
        reveal(event_json);
    }
    r
}

} // verus!
