//! The index manifest: a pretty-printed JSON list mapping uploaded file
//! names to their resulting URLs, `[{ "name": ..., "url": ... }, ...]`,
//! itself uploaded as a file when an index is requested. The exact text is
//! pinned down here, escaping included.

use vstd::prelude::*;
use vstd::string::{StrSliceExecFns, StringExecFns};
use crate::files::IndexedFile;
use crate::strutil::push_char;

verus! {

/// The character for one hexadecimal digit, lower case.
pub open spec fn spec_hex(d: nat) -> char {
    if d == 0 {
        '0'
    } else if d == 1 {
        '1'
    } else if d == 2 {
        '2'
    } else if d == 3 {
        '3'
    } else if d == 4 {
        '4'
    } else if d == 5 {
        '5'
    } else if d == 6 {
        '6'
    } else if d == 7 {
        '7'
    } else if d == 8 {
        '8'
    } else if d == 9 {
        '9'
    } else if d == 10 {
        'a'
    } else if d == 11 {
        'b'
    } else if d == 12 {
        'c'
    } else if d == 13 {
        'd'
    } else if d == 14 {
        'e'
    } else {
        'f'
    }
}

/// How one character appears inside a JSON string literal: quotes and
/// backslashes are escaped, control characters get their named or `\u00..`
/// escape, and everything else stands as itself.
pub open spec fn json_escape_char(c: char) -> Seq<char> {
    let cp = c as u32;
    if c == '"' {
        seq!['\\', '"']
    } else if c == '\\' {
        seq!['\\', '\\']
    } else if cp == 8 {
        seq!['\\', 'b']
    } else if cp == 9 {
        seq!['\\', 't']
    } else if cp == 10 {
        seq!['\\', 'n']
    } else if cp == 12 {
        seq!['\\', 'f']
    } else if cp == 13 {
        seq!['\\', 'r']
    } else if cp < 32 {
        seq!['\\', 'u', '0', '0', spec_hex((cp / 16) as nat), spec_hex((cp % 16) as nat)]
    } else {
        seq![c]
    }
}

/// A whole string, escaped for a JSON string literal.
pub open spec fn json_escape(s: Seq<char>) -> Seq<char>
    decreases s.len(),
{
    if s.len() == 0 {
        Seq::empty()
    } else {
        json_escape(s.drop_last()) + json_escape_char(s.last())
    }
}

/// One manifest entry as text, at list indentation.
pub open spec fn manifest_entry(f: IndexedFile) -> Seq<char> {
    "  {\n    \"name\": \""@ + json_escape(f.name@) + "\",\n    \"url\": \""@ + json_escape(
        f.url@,
    ) + "\"\n  }"@
}

/// The entries of a non-empty manifest, joined by `,\n`.
pub open spec fn manifest_entries(l: Seq<IndexedFile>) -> Seq<char>
    decreases l.len(),
{
    if l.len() <= 1 {
        if l.len() == 0 {
            Seq::empty()
        } else {
            manifest_entry(l[0])
        }
    } else {
        manifest_entries(l.drop_last()) + ",\n"@ + manifest_entry(l.last())
    }
}

/// The whole manifest: `[]` for no entries, else the entries between
/// `[` and `]`, one object per entry.
pub open spec fn manifest_json(l: Seq<IndexedFile>) -> Seq<char> {
    if l.len() == 0 {
        "[]"@
    } else {
        "[\n"@ + manifest_entries(l) + "\n]"@
    }
}

fn hex_char(d: u32) -> (r: char)
    requires
        d < 16,
    ensures
        r == spec_hex(d as nat),
{
    match d {
        0 => '0',
        1 => '1',
        2 => '2',
        3 => '3',
        4 => '4',
        5 => '5',
        6 => '6',
        7 => '7',
        8 => '8',
        9 => '9',
        10 => 'a',
        11 => 'b',
        12 => 'c',
        13 => 'd',
        14 => 'e',
        _ => 'f',
    }
}

/// Appends `c` to `out` in its JSON-escaped form.
fn push_escaped(out: &mut String, c: char)
    ensures
        final(out)@ == old(out)@ + json_escape_char(c),
{
    let cp = c as u32;
    if c == '"' {
        proof {
            reveal_strlit("\\\"");
        }
        out.append("\\\"");
        proof {
            assert("\\\""@ =~= json_escape_char(c));
        }
    } else if c == '\\' {
        proof {
            reveal_strlit("\\\\");
        }
        out.append("\\\\");
        proof {
            assert("\\\\"@ =~= json_escape_char(c));
        }
    } else if cp == 8 {
        proof {
            reveal_strlit("\\b");
        }
        out.append("\\b");
        proof {
            assert("\\b"@ =~= json_escape_char(c));
        }
    } else if cp == 9 {
        proof {
            reveal_strlit("\\t");
        }
        out.append("\\t");
        proof {
            assert("\\t"@ =~= json_escape_char(c));
        }
    } else if cp == 10 {
        proof {
            reveal_strlit("\\n");
        }
        out.append("\\n");
        proof {
            assert("\\n"@ =~= json_escape_char(c));
        }
    } else if cp == 12 {
        proof {
            reveal_strlit("\\f");
        }
        out.append("\\f");
        proof {
            assert("\\f"@ =~= json_escape_char(c));
        }
    } else if cp == 13 {
        proof {
            reveal_strlit("\\r");
        }
        out.append("\\r");
        proof {
            assert("\\r"@ =~= json_escape_char(c));
        }
    } else if cp < 32 {
        proof {
            reveal_strlit("\\u00");
        }
        out.append("\\u00");
        push_char(out, hex_char(cp / 16));
        push_char(out, hex_char(cp % 16));
        proof {
            assert("\\u00"@ =~= seq!['\\', 'u', '0', '0']);
            assert(out@ =~= old(out)@ + json_escape_char(c));
        }
    } else {
        push_char(out, c);
        proof {
            assert(out@ =~= old(out)@ + json_escape_char(c));
        }
    }
}

/// Escapes a string for use inside a JSON string literal.
pub fn escape_json(s: &str) -> (r: String)
    ensures
        r@ == json_escape(s@),
{
    let len = s.unicode_len();
    let mut out = String::new();
    let mut i: usize = 0;
    while i < len
        invariant
            i <= len,
            len == s@.len(),
            out@ == json_escape(s@.take(i as int)),
        decreases len - i,
    {
        let c = s.get_char(i);
        push_escaped(&mut out, c);
        proof {
            assert(s@.take(i + 1).drop_last() =~= s@.take(i as int));
            assert(s@.take(i + 1).last() == s@[i as int]);
        }
        i = i + 1;
    }
    proof {
        assert(s@.take(len as int) =~= s@);
    }
    out
}

fn append_entry(s: &mut String, f: &IndexedFile)
    ensures
        final(s)@ == old(s)@ + manifest_entry(*f),
{
    s.append("  {\n    \"name\": \"");
    let en = escape_json(f.name.as_str());
    s.append(en.as_str());
    s.append("\",\n    \"url\": \"");
    let eu = escape_json(f.url.as_str());
    s.append(eu.as_str());
    s.append("\"\n  }");
    proof {
        assert(s@ =~= old(s)@ + manifest_entry(*f));
    }
}

/// Serializes the manifest entries to their pretty-printed JSON text.
pub fn index_json(files: &Vec<IndexedFile>) -> (r: String)
    ensures
        r@ == manifest_json(files@),
{
    if files.len() == 0 {
        return "[]".to_owned();
    }
    let mut s = "[\n".to_owned();
    let mut i: usize = 0;
    while i < files.len()
        invariant
            i <= files@.len(),
            0 < files@.len(),
            s@ == "[\n"@ + manifest_entries(files@.take(i as int)),
        decreases files@.len() - i,
    {
        if i > 0 {
            s.append(",\n");
        }
        append_entry(&mut s, &files[i]);
        proof {
            assert(files@.take(i + 1).drop_last() =~= files@.take(i as int));
            assert(files@.take(i + 1).last() == files@[i as int]);
            if i == 0 {
                assert(manifest_entries(files@.take(0int)) =~= Seq::<char>::empty());
                assert(s@ =~= "[\n"@ + manifest_entries(files@.take(i + 1)));
            } else {
                assert(s@ =~= "[\n"@ + manifest_entries(files@.take(i + 1)));
            }
        }
        i = i + 1;
    }
    s.append("\n]");
    proof {
        assert(files@.take(files@.len() as int) =~= files@);
        assert(s@ =~= manifest_json(files@));
    }
    s
}

} // verus!
