//! Docstring formatting: wraps multi-line free text into an indented C
//! block comment, one ` * ` line per source line, dropping only a trailing
//! empty line (a source text that ends in a newline would otherwise produce
//! an orphan blank comment line).

use vstd::prelude::*;
use crate::translit::push_char;

verus! {

/// The segments of `s` between `\n` characters, as `str::split` yields
/// them: always at least one segment, with an empty final segment when `s`
/// ends in `\n`.
pub open spec fn split_lines(s: Seq<char>) -> Seq<Seq<char>>
    decreases s.len(),
{
    if s.len() == 0 {
        seq![Seq::<char>::empty()]
    } else if s.last() == '\n' {
        split_lines(s.drop_last()).push(Seq::<char>::empty())
    } else {
        let rest = split_lines(s.drop_last());
        rest.update(rest.len() - 1, rest.last().push(s.last()))
    }
}

/// The comment body segments of a description: its split lines, with a
/// trailing empty segment dropped.
pub open spec fn doc_segments(s: Seq<char>) -> Seq<Seq<char>> {
    let parts = split_lines(s);
    if parts.last().len() == 0 {
        parts.drop_last()
    } else {
        parts
    }
}

/// `n` space characters.
pub open spec fn spaces(n: nat) -> Seq<char>
    decreases n,
{
    if n == 0 {
        Seq::empty()
    } else {
        spaces((n - 1) as nat).push(' ')
    }
}

/// One body line of the block comment: the indent, ` * ` and the segment
/// (a bare ` *` when the segment is empty), and a line break.
pub open spec fn doc_line(seg: Seq<char>, indent: nat) -> Seq<char> {
    if seg.len() == 0 {
        spaces(indent) + " *"@ + "\n"@
    } else {
        spaces(indent) + " * "@ + seg + "\n"@
    }
}

/// The first `k` body lines of the block comment, concatenated.
pub open spec fn doc_body(segs: Seq<Seq<char>>, k: int, indent: nat) -> Seq<char>
    decreases k,
{
    if k <= 0 {
        Seq::empty()
    } else {
        doc_body(segs, k - 1, indent) + doc_line(segs[k - 1], indent)
    }
}

/// The whole block comment for a description: an opening `/**` line, one
/// body line per segment, and a closing ` */` line, every line indented and
/// terminated by a line break.
pub open spec fn docstring_of(desc: Seq<char>, indent: nat) -> Seq<char> {
    let segs = doc_segments(desc);
    spaces(indent) + "/**"@ + "\n"@ + doc_body(segs, segs.len() as int, indent) + spaces(indent)
        + " */"@ + "\n"@
}

/// The views of a vector of owned segments.
pub open spec fn views_of(ps: Seq<String>) -> Seq<Seq<char>> {
    ps.map_values(|p: String| p@)
}

pub(crate) fn push_spaces(out: &mut String, n: usize)
    ensures
        final(out)@ == old(out)@ + spaces(n as nat),
{
    let mut j: usize = 0;
    while j < n
        invariant
            j <= n,
            out@ == old(out)@ + spaces(j as nat),
        decreases n - j,
    {
        push_char(out, ' ');
        j += 1;
    }
}

/// Renders `desc` as an indented C block comment.
pub fn format_docstring(desc: &str, indent: usize) -> (r: String)
    ensures
        r@ == docstring_of(desc@, indent as nat),
{
    let n = desc.unicode_len();
    let mut parts: Vec<String> = Vec::new();
    let mut cur = String::new();
    let mut i: usize = 0;
    while i < n
        invariant
            n == desc@.len(),
            i <= n,
            views_of(parts@) + seq![cur@] == split_lines(desc@.take(i as int)),
        decreases n - i,
    {
        let c = desc.get_char(i);
        let ghost prev_parts = parts@;
        let ghost prev_cur = cur@;
        if c == '\n' {
            parts.push(cur);
            cur = String::new();
        } else {
            push_char(&mut cur, c);
        }
        proof {
            let t = desc@.take(i + 1);
            assert(t.drop_last() =~= desc@.take(i as int));
            assert(t.last() == desc@[i as int]);
            if c == '\n' {
                assert(views_of(parts@) =~= views_of(prev_parts).push(prev_cur));
                assert(views_of(parts@) + seq![cur@] =~= split_lines(t));
            } else {
                let old_whole = views_of(prev_parts) + seq![prev_cur];
                assert(old_whole.last() == prev_cur);
                assert(views_of(parts@) + seq![cur@] =~= old_whole.update(
                    old_whole.len() - 1,
                    prev_cur.push(c),
                ));
            }
        }
        i += 1;
    }
    proof {
        assert(desc@.take(n as int) =~= desc@);
    }
    let ghost split_parts = parts@;
    let ghost split_cur = cur@;
    if !cur.as_str().is_empty() {
        parts.push(cur);
        proof {
            assert(views_of(parts@) =~= views_of(split_parts).push(split_cur));
            assert(views_of(parts@) =~= doc_segments(desc@));
        }
    } else {
        proof {
            assert(views_of(parts@) =~= doc_segments(desc@));
        }
    }
    let ghost segs = doc_segments(desc@);
    let mut out = String::new();
    push_spaces(&mut out, indent);
    out.append("/**");
    out.append("\n");
    let mut k: usize = 0;
    while k < parts.len()
        invariant
            segs == doc_segments(desc@),
            views_of(parts@) == segs,
            k <= parts@.len(),
            out@ == spaces(indent as nat) + "/**"@ + "\n"@ + doc_body(segs, k as int, indent as nat),
        decreases parts@.len() - k,
    {
        push_spaces(&mut out, indent);
        let seg: &String = &parts[k];
        if seg.as_str().is_empty() {
            out.append(" *");
        } else {
            out.append(" * ");
            out.append(seg.as_str());
        }
        out.append("\n");
        proof {
            assert(segs[k as int] == parts@[k as int]@);
            assert(out@ =~= spaces(indent as nat) + "/**"@ + "\n"@ + doc_body(
                segs,
                k + 1,
                indent as nat,
            ));
        }
        k += 1;
    }
    push_spaces(&mut out, indent);
    out.append(" */");
    out.append("\n");
    proof {
        assert(segs.len() == parts@.len());
        assert(out@ =~= docstring_of(desc@, indent as nat));
    }
    out
}

} // verus!
