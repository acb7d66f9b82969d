//! Text helpers used when pages are rendered and named.
use vstd::prelude::*;
use vstd::string::*;

verus! {

/// `i` is the position of the first line feed in `s`.
pub open spec fn is_first_newline(s: Seq<char>, i: int) -> bool {
    &&& 0 <= i < s.len()
    &&& s[i] == '\n'
    &&& forall|k: int| 0 <= k < i ==> s[k] != '\n'
}

/// A line without the carriage return that ended it, if any.
pub open spec fn strip_cr(line: Seq<char>) -> Seq<char> {
    if line.len() > 0 && line.last() == '\r' {
        line.drop_last()
    } else {
        line
    }
}

/// The lines of a text: split at each line feed, a carriage return before
/// the line feed dropped; a final line ending adds no empty line, and the
/// empty text has no lines.
pub open spec fn text_lines(s: Seq<char>) -> Seq<Seq<char>>
    decreases s.len(),
{
    if s.len() == 0 {
        Seq::empty()
    } else if exists|i: int| is_first_newline(s, i) {
        let i = choose|i: int| is_first_newline(s, i);
        seq![strip_cr(s.subrange(0, i))] + text_lines(s.subrange(i + 1, s.len() as int))
    } else {
        seq![s]
    }
}

/// Each line prefixed by `//`, the lines joined by line feeds.
pub open spec fn comment_block(lines: Seq<Seq<char>>) -> Seq<char>
    decreases lines.len(),
{
    if lines.len() == 0 {
        Seq::empty()
    } else if lines.len() == 1 {
        seq!['/', '/'] + lines[0]
    } else {
        comment_block(lines.drop_last()) + seq!['\n', '/', '/'] + lines.last()
    }
}

proof fn lemma_lines_split(t: Seq<char>, k: int)
    requires
        0 <= k < t.len(),
        t[k] == '\n',
        forall|j: int| 0 <= j < k ==> t[j] != '\n',
    ensures
        text_lines(t) == seq![strip_cr(t.subrange(0, k))] + text_lines(t.subrange(k + 1, t.len() as int)),
{
    assert(is_first_newline(t, k));
    let i = choose|i: int| is_first_newline(t, i);
    if i < k {
        assert(t[i] != '\n');
    } else if i > k {
        assert(t[k] != '\n');
    }
}

proof fn lemma_lines_last(t: Seq<char>)
    requires
        t.len() > 0,
        forall|j: int| 0 <= j < t.len() ==> t[j] != '\n',
    ensures
        text_lines(t) == seq![t],
{
    assert(!exists|i: int| is_first_newline(t, i));
}

proof fn lemma_block_push(lines: Seq<Seq<char>>, l: Seq<char>)
    ensures
        comment_block(lines.push(l)) == comment_block(lines) + (if lines.len() == 0 {
            seq!['/', '/'] + l
        } else {
            seq!['\n', '/', '/'] + l
        }),
{
    assert(lines.push(l).drop_last() =~= lines);
    if lines.len() == 0 {
        assert(comment_block(lines) =~= Seq::<char>::empty());
        assert(comment_block(lines.push(l)) =~= seq!['/', '/'] + l);
    }
}

/// Appends one line of the comment block to `out`.
fn push_comment_line(out: &mut String, first: bool, line: &str)
    ensures
        final(out)@ == old(out)@ + (if first {
            seq!['/', '/'] + line@
        } else {
            seq!['\n', '/', '/'] + line@
        }),
{
    proof {
        reveal_strlit("//");
        reveal_strlit("\n//");
    }
    if first {
        out.append("//");
    } else {
        out.append("\n//");
    }
    out.append(line);
    assert(out@ =~= old(out)@ + (if first {
        seq!['/', '/'] + line@
    } else {
        seq!['\n', '/', '/'] + line@
    }));
}

/// Split lines in `s` and prepend each line with `//` and join back.
pub fn render_multiline_comment(s: &str) -> (r: String)
    ensures
        r@ == comment_block(text_lines(s@)),
{
    let n = s.unicode_len();
    let mut out = String::new();
    let ghost mut emitted: Seq<Seq<char>> = Seq::empty();
    let mut first = true;
    let mut start: usize = 0;
    let mut i: usize = 0;
    assert(s@.subrange(0, n as int) =~= s@);
    while i < n
        invariant
            n == s@.len(),
            start <= i <= n,
            text_lines(s@) == emitted + text_lines(s@.subrange(start as int, n as int)),
            out@ == comment_block(emitted),
            first == (emitted.len() == 0),
            forall|j: int| start <= j < i ==> s@[j] != '\n',
        decreases n - i,
    {
        if s.get_char(i) == '\n' {
            let end = if i > start && s.get_char(i - 1) == '\r' {
                i - 1
            } else {
                i
            };
            let line = s.substring_char(start, end);
            proof {
                let t = s@.subrange(start as int, n as int);
                lemma_lines_split(t, (i - start) as int);
                assert(t.subrange(0, (i - start) as int) =~= s@.subrange(start as int, i as int));
                assert(t.subrange((i - start) as int + 1, t.len() as int) =~= s@.subrange(i + 1, n as int));
                assert(line@ =~= strip_cr(s@.subrange(start as int, i as int)));
                lemma_block_push(emitted, line@);
                assert(emitted + text_lines(t) =~= emitted.push(line@) + text_lines(s@.subrange(i + 1, n as int)));
            }
            push_comment_line(&mut out, first, line);
            first = false;
            proof {
                emitted = emitted.push(line@);
            }
            start = i + 1;
        }
        i = i + 1;
    }
    if start < n {
        let line = s.substring_char(start, n);
        proof {
            lemma_lines_last(s@.subrange(start as int, n as int));
            lemma_block_push(emitted, line@);
        }
        push_comment_line(&mut out, first, line);
        proof {
            emitted = emitted.push(line@);
        }
    }
    assert(emitted =~= text_lines(s@));
    out
}


/// A file name with each `/` turned into `.`.
pub open spec fn dotted(name: Seq<char>) -> Seq<char> {
    name.map_values(|c: char| if c == '/' { '.' } else { c })
}

/// The name of the page generated for proto file `name`: its path with
/// dots for slashes, and the `.md` extension.
pub open spec fn page_name(name: Seq<char>) -> Seq<char> {
    dotted(name) + seq!['.', 'm', 'd']
}

/// Names the page of proto file `name`: `a/b.proto` gives `a.b.proto.md`.
pub fn page_file_name(name: &str) -> (r: String)
    ensures
        r@ == page_name(name@),
{
    proof {
        reveal_strlit(".");
        reveal_strlit(".md");
    }
    let n = name.unicode_len();
    let mut out = String::new();
    let mut start: usize = 0;
    let mut i: usize = 0;
    while i < n
        invariant
            n == name@.len(),
            start <= i <= n,
            out@ == dotted(name@.subrange(0, start as int)),
            forall|j: int| start <= j < i ==> name@[j] != '/',
        decreases n - i,
    {
        if name.get_char(i) == '/' {
            let part = name.substring_char(start, i);
            out.append(part);
            out.append(".");
            proof {
                reveal_strlit(".");
                let whole = dotted(name@.subrange(0, i as int + 1));
                assert(whole.len() == out@.len());
                assert forall|k: int| 0 <= k < whole.len() implies whole[k] == out@[k] by {
                    if k < start {
                        assert(whole[k] == dotted(name@.subrange(0, start as int))[k]);
                    } else if k < i {
                        assert(name@[k] != '/');
                        assert(out@[k] == part@[k - start]);
                    }
                }
                assert(out@ =~= whole);
            }
            start = i + 1;
        }
        i = i + 1;
    }
    let part = name.substring_char(start, n);
    out.append(part);
    proof {
        let whole = dotted(name@.subrange(0, n as int));
        assert forall|k: int| 0 <= k < whole.len() implies whole[k] == out@[k] by {
            if k < start {
                assert(whole[k] == dotted(name@.subrange(0, start as int))[k]);
            } else {
                assert(name@[k] != '/');
                assert(out@[k] == part@[k - start]);
            }
        }
        assert(out@ =~= whole);
    }
    assert(name@.subrange(0, n as int) =~= name@);
    out.append(".md");
    assert(out@ =~= page_name(name@));
    out
}

} // verus!
