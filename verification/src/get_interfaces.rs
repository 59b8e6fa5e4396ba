use vstd::prelude::*;

use crate::text::{spec_lines, spec_tokens, split_lines, split_tokens};

verus! {

/// A token stripped of every trailing colon.
pub open spec fn trim_trailing_colons(t: Seq<char>) -> Seq<char>
    decreases t.len(),
{
    if t.len() > 0 && t.last() == ':' {
        trim_trailing_colons(t.drop_last())
    } else {
        t
    }
}

/// The interface name a lister output line declares, if any: the line's
/// first token, when it ends with a colon, stripped of trailing colons.
pub open spec fn spec_interface_of_line(line: Seq<char>) -> Option<Seq<char>> {
    let toks = spec_tokens(line);
    if toks.len() > 0 && toks[0].len() > 0 && toks[0].last() == ':' {
        Some(trim_trailing_colons(toks[0]))
    } else {
        None
    }
}

/// The interface names declared by a sequence of lines, in order.
pub open spec fn spec_interfaces_of(lines: Seq<Seq<char>>) -> Seq<Seq<char>>
    decreases lines.len(),
{
    if lines.len() == 0 {
        Seq::empty()
    } else {
        match spec_interface_of_line(lines[0]) {
            Some(name) => seq![name] + spec_interfaces_of(lines.drop_first()),
            None => spec_interfaces_of(lines.drop_first()),
        }
    }
}

fn trim_colons_end(t: &str, end: usize) -> (r: usize)
    requires
        end <= t@.len(),
    ensures
        r <= end,
        trim_trailing_colons(t@.subrange(0, end as int)) == t@.subrange(0, r as int),
    decreases end,
{
    if end == 0 {
        0
    } else if t.get_char(end - 1) == ':' {
        proof {
            let sub = t@.subrange(0, end as int);
            assert(sub.last() == t@[end as int - 1]);
            assert(sub.drop_last() =~= t@.subrange(0, end as int - 1));
        }
        trim_colons_end(t, end - 1)
    } else {
        proof {
            let sub = t@.subrange(0, end as int);
            assert(sub.last() == t@[end as int - 1]);
        }
        end
    }
}

/// The interface names in the lister's raw output: one per line whose
/// first blank-separated token ends with a colon, with trailing colons
/// stripped, in output order.
pub fn parse_interface_names(output: &str) -> (r: Vec<String>)
    ensures
        r.deep_view() == spec_interfaces_of(spec_lines(output@)),
{
    let lines = split_lines(output);
    let mut out: Vec<String> = Vec::new();
    let mut j: usize = 0;
    proof {
        assert(lines.deep_view().subrange(0, lines.deep_view().len() as int)
            =~= lines.deep_view());
        assert(out.deep_view() + spec_interfaces_of(lines.deep_view()) =~= spec_interfaces_of(
            lines.deep_view(),
        ));
    }
    while j < lines.len()
        invariant
            lines.deep_view() == spec_lines(output@),
            j <= lines.len(),
            spec_interfaces_of(spec_lines(output@)) =~= out.deep_view() + spec_interfaces_of(
                lines.deep_view().subrange(j as int, lines.deep_view().len() as int),
            ),
        decreases lines.len() - j,
    {
        let ghost dv = lines.deep_view();
        let ghost rest = dv.subrange(j as int, dv.len() as int);
        proof {
            assert(rest[0] == dv[j as int]);
            assert(rest.drop_first() =~= dv.subrange(j as int + 1, dv.len() as int));
            assert(dv[j as int] == lines@[j as int]@);
        }
        let toks = split_tokens(lines[j].as_str());
        if toks.len() > 0 {
            let first = &toks[0];
            proof {
                assert(toks.deep_view()[0] == toks@[0]@);
            }
            let first_len = first.as_str().unicode_len();
            if first_len > 0 && first.as_str().get_char(first_len - 1) == ':' {
                proof {
                    assert(first@.last() == first@[first_len as int - 1]);
                }
                let end = trim_colons_end(first.as_str(), first_len);
                let name = first.as_str().substring_char(0, end).to_owned();
                proof {
                    assert(first@.subrange(0, first_len as int) =~= first@);
                }
                let ghost before = out.deep_view();
                out.push(name);
                proof {
                    assert(out.deep_view() =~= before.push(trim_trailing_colons(first@)));
                    assert(before + (seq![trim_trailing_colons(first@)] + spec_interfaces_of(
                        rest.drop_first(),
                    )) =~= out.deep_view() + spec_interfaces_of(rest.drop_first()));
                }
            } else {
                proof {
                    if toks.deep_view()[0].len() > 0 {
                        assert(first@.last() == first@[first_len as int - 1]);
                    }
                }
            }
        }
        j += 1;
    }
    proof {
        assert(lines.deep_view().subrange(
            lines.deep_view().len() as int,
            lines.deep_view().len() as int,
        ) =~= Seq::<Seq<char>>::empty());
        assert(out.deep_view() + Seq::<Seq<char>>::empty() =~= out.deep_view());
    }
    out
}

} // verus!
