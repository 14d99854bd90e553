//! Small utilities: build-mode reporting and the parsing of environment
//! configuration text.

use vstd::prelude::*;

use crate::text::{
    bytes_range, find_byte, find_byte_pos, split_bytes, split_on_byte, string_from_utf8,
    trim_bytes, trim_spec,
};

verus! {

use vstd::utf8::{decode_utf8, encode_utf8, valid_utf8};

/// Whether development diagnostics are active; the verified build ships
/// release behavior.
pub fn is_dev() -> (r: bool)
    ensures
        !r,
{
    false
}

/// The key and value of one `KEY=VALUE` line, both trimmed of ASCII
/// whitespace; a line without `=` carries nothing.
pub open spec fn spec_parse_line(b: Seq<u8>) -> Option<(Seq<char>, Seq<char>)> {
    match find_byte(b, 61) {
        Some(i) => {
            let k = trim_spec(b.take(i));
            let v = trim_spec(b.skip(i + 1));
            if valid_utf8(k) && valid_utf8(v) {
                Some((decode_utf8(k), decode_utf8(v)))
            } else {
                None
            }
        },
        None => None,
    }
}

/// Splits one configuration line at its first `=` into a trimmed key and
/// value.
pub fn parse_line(line: &str) -> (r: Option<(String, String)>)
    ensures
        match r {
            Some(pair) => spec_parse_line(encode_utf8(line@)) matches Some(spair) && spair.0
                == pair.0@ && spair.1 == pair.1@,
            None => spec_parse_line(encode_utf8(line@)) is None,
        },
{
    parse_line_bytes(line.as_bytes())
}

/// The `KEY=VALUE` pairs of a configuration text, line by line in order:
/// blank lines and `#` comments are skipped, each remaining line is cut at
/// its first `=`, and a line without one carries nothing.  Applied in
/// order, the pairs give every key its last value.
pub open spec fn spec_env_pairs(lines: Seq<Seq<u8>>) -> Seq<(Seq<char>, Seq<char>)>
    decreases lines.len(),
{
    if lines.len() == 0 {
        Seq::empty()
    } else {
        let head = if trim_spec(lines[0]).len() == 0 || (lines[0].len() > 0 && lines[0][0]
            == 35) {
            Seq::<(Seq<char>, Seq<char>)>::empty()
        } else {
            match spec_parse_line(lines[0]) {
                Some(pair) => seq![pair],
                None => Seq::<(Seq<char>, Seq<char>)>::empty(),
            }
        };
        head + spec_env_pairs(lines.drop_first())
    }
}

proof fn lemma_env_pairs_take(lines: Seq<Seq<u8>>, i: int)
    requires
        0 <= i < lines.len(),
    ensures
        spec_env_pairs(lines.take(i + 1)) == spec_env_pairs(lines.take(i)) + (
        if trim_spec(lines[i]).len() == 0 || (lines[i].len() > 0 && lines[i][0] == 35) {
            Seq::<(Seq<char>, Seq<char>)>::empty()
        } else {
            match spec_parse_line(lines[i]) {
                Some(pair) => seq![pair],
                None => Seq::<(Seq<char>, Seq<char>)>::empty(),
            }
        }),
    decreases i + 1,
{
    if i == 0 {
        assert(lines.take(1).drop_first() =~= lines.take(0));
        assert(spec_env_pairs(lines.take(0)) =~= Seq::<(Seq<char>, Seq<char>)>::empty());
        assert(lines.take(1)[0] == lines[0]);
        assert(spec_env_pairs(lines.take(1)) =~= spec_env_pairs(lines.take(0)) + (
        if trim_spec(lines[0]).len() == 0 || (lines[0].len() > 0 && lines[0][0] == 35) {
            Seq::<(Seq<char>, Seq<char>)>::empty()
        } else {
            match spec_parse_line(lines[0]) {
                Some(pair) => seq![pair],
                None => Seq::<(Seq<char>, Seq<char>)>::empty(),
            }
        }));
    } else {
        lemma_env_pairs_take(lines.drop_first(), i - 1);
        assert(lines.take(i + 1).drop_first() =~= lines.drop_first().take(i));
        assert(lines.take(i).drop_first() =~= lines.drop_first().take(i - 1));
        assert(lines.take(i + 1)[0] == lines[0]);
        assert(lines.take(i)[0] == lines[0]);
        assert(lines.drop_first()[i - 1] == lines[i]);
    }
}

/// Parses a whole environment configuration text into its pairs, in line
/// order.  The application applies them in order, so a repeated key ends
/// up with its last value.
#[verifier::loop_isolation(false)]
pub fn parse_env_text(text: &str) -> (r: Vec<(String, String)>)
    ensures
        Seq::new(r@.len(), |k: int| (r@[k].0@, r@[k].1@)) == spec_env_pairs(
            split_bytes(encode_utf8(text@), 10),
        ),
{
    let lines = split_on_byte(text.as_bytes(), 10);
    let ghost line_views = Seq::new(lines@.len(), |k: int| lines@[k]@);
    let mut r: Vec<(String, String)> = Vec::new();
    proof {
        assert(Seq::new(r@.len(), |k: int| (r@[k].0@, r@[k].1@)) =~= spec_env_pairs(
            line_views.take(0),
        ));
    }
    let mut i: usize = 0;
    while i < lines.len()
        invariant
            i <= lines@.len(),
            line_views == Seq::new(lines@.len(), |k: int| lines@[k]@),
            Seq::new(r@.len(), |k: int| (r@[k].0@, r@[k].1@)) == spec_env_pairs(
                line_views.take(i as int),
            ),
        decreases lines@.len() - i,
    {
        let line = &lines[i];
        let trimmed = trim_bytes(line.as_slice());
        let skip_line = trimmed.len() == 0 || (line.len() > 0 && line[0] == 35);
        if !skip_line {
            match parse_line_bytes(line.as_slice()) {
                Some(pair) => {
                    r.push(pair);
                },
                None => {},
            }
        }
        proof {
            lemma_env_pairs_take(line_views, i as int);
            assert(line_views[i as int] == lines@[i as int]@);
            assert(Seq::new(r@.len(), |k: int| (r@[k].0@, r@[k].1@)) =~= spec_env_pairs(
                line_views.take(i + 1),
            ));
        }
        i = i + 1;
    }
    proof {
        assert(line_views.take(line_views.len() as int) =~= line_views);
    }
    r
}

/// As [`parse_line`], over raw line bytes.
fn parse_line_bytes(line: &[u8]) -> (r: Option<(String, String)>)
    ensures
        match r {
            Some(pair) => spec_parse_line(line@) matches Some(spair) && spair.0 == pair.0@
                && spair.1 == pair.1@,
            None => spec_parse_line(line@) is None,
        },
{
    match find_byte_pos(line, 61) {
        Some(i) => {
            let n = line.len();
            proof {
                crate::text::lemma_find_byte_bound(line@, 61);
            }
            let key_part = bytes_range(line, 0, i);
            let val_part = bytes_range(line, i + 1, n);
            proof {
                assert(key_part@ =~= line@.take(i as int));
                assert(val_part@ =~= line@.skip(i + 1));
            }
            let key_bytes = trim_bytes(key_part.as_slice());
            let val_bytes = trim_bytes(val_part.as_slice());
            match string_from_utf8(key_bytes) {
                Some(key) => match string_from_utf8(val_bytes) {
                    Some(val) => {
                        proof {
                            vstd::utf8::encode_utf8_decode_utf8(key@);
                            vstd::utf8::encode_utf8_decode_utf8(val@);
                        }
                        Some((key, val))
                    },
                    None => None,
                },
                None => None,
            }
        },
        None => None,
    }
}

} // verus!
