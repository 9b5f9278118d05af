//! Request-header parsing: the lines a client sent before the first blank
//! line, and accessors for the request path and the header lines.

use vstd::prelude::*;

verus! {

/// The text lines of one request: the request line first, then each header
/// line verbatim — all the lines received before the first blank line.
pub struct TestHeaders(Vec<String>);

/// The lines of `v`, each as its sequence of characters.
pub open spec fn lines_view(v: Seq<String>) -> Seq<Seq<char>> {
    v.map_values(|s: String| s@)
}

/// The prefix of `lines` before the first empty line: what remains of a
/// request once reading stops at the blank line that ends the headers.
pub open spec fn headers_of(lines: Seq<Seq<char>>) -> Seq<Seq<char>>
    decreases lines.len(),
{
    if lines.len() == 0 {
        lines
    } else if lines[0].len() == 0 {
        Seq::empty()
    } else {
        seq![lines[0]] + headers_of(lines.drop_first())
    }
}

/// The index of the first space in `l` at or after `from`, or the length of
/// `l` when there is none.
pub open spec fn space_from(l: Seq<char>, from: int) -> int
    decreases l.len() - from,
{
    if from < 0 || from >= l.len() {
        l.len() as int
    } else if l[from] == ' ' {
        from
    } else {
        space_from(l, from + 1)
    }
}

/// The token of the request line between its first space and the next one
/// (or the end of the line): the path `/foo` in `GET /foo HTTP/1.1`.
pub open spec fn second_token(l: Seq<char>) -> Seq<char> {
    l.subrange(space_from(l, 0) + 1, space_from(l, space_from(l, 0) + 1))
}

/// The request path of a parsed request: the second space-separated token
/// of the request line, or the empty string when no line was read.
pub open spec fn path_of(lines: Seq<Seq<char>>) -> Seq<char> {
    if lines.len() == 0 {
        Seq::empty()
    } else {
        second_token(lines[0])
    }
}

impl View for TestHeaders {
    type V = Seq<Seq<char>>;

    closed spec fn view(&self) -> Seq<Seq<char>> {
        lines_view(self.0@)
    }
}

/// Once every line up to some stopping point is known not to be blank, and
/// the stopping point is the end or a blank line, the parsed headers are
/// exactly the lines before the stopping point.
proof fn lemma_headers_of_stop(lines: Seq<Seq<char>>, i: int)
    requires
        0 <= i <= lines.len(),
        forall|j: int| 0 <= j < i ==> lines[j].len() != 0,
        i == lines.len() || lines[i].len() == 0,
    ensures
        headers_of(lines) == lines.take(i),
    decreases i,
{
    if i == 0 {
        if lines.len() == 0 {
            assert(lines.take(0) =~= lines);
        } else {
            assert(lines.take(0) =~= Seq::<Seq<char>>::empty());
        }
    } else {
        let rest = lines.drop_first();
        assert(forall|j: int| 0 <= j < i - 1 ==> rest[j].len() != 0);
        lemma_headers_of_stop(rest, i - 1);
        assert(lines.take(i) =~= seq![lines[0]] + rest.take(i - 1));
    }
}

/// Keep, of the lines received on a connection, those before the first
/// blank line: the request line and the header lines that follow it.
pub fn read_headers(lines: Vec<String>) -> (h: TestHeaders)
    ensures
        h@ == headers_of(lines_view(lines@)),
{
    let mut results: Vec<String> = Vec::new();
    let mut i: usize = 0;
    while i < lines.len() && !lines[i].as_str().is_empty()
        invariant
            0 <= i <= lines@.len(),
            forall|j: int| 0 <= j < i ==> lines@[j]@.len() != 0,
            results@.len() == i as int,
            lines_view(results@) == lines_view(lines@).take(i as int),
        decreases lines@.len() - i,
    {
        results.push(lines[i].clone());
        proof {
            assert(lines_view(results@) =~= lines_view(lines@).take(i + 1));
        }
        i = i + 1;
    }
    proof {
        lemma_headers_of_stop(lines_view(lines@), i as int);
    }
    TestHeaders(results)
}

impl TestHeaders {
    /// The request path: the second space-separated token of the request
    /// line (`/foo` in `GET /foo HTTP/1.1`), or the empty string when no
    /// line was read. The request line must contain a space.
    pub fn path(&self) -> (p: &str)
        requires
            self@.len() == 0 || space_from(self@[0], 0) < self@[0].len(),
        ensures
            p@ == path_of(self@),
    {
        if self.0.len() == 0 {
            proof {
                reveal_strlit("");
                assert(""@ =~= Seq::<char>::empty());
            }
            ""
        } else {
            let line: &str = self.0[0].as_str();
            let n: usize = line.unicode_len();
            let ghost l: Seq<char> = line@;
            let mut i: usize = 0;
            while i < n && line.get_char(i) != ' '
                invariant
                    0 <= i <= n,
                    n == l.len(),
                    l == line@,
                    space_from(l, 0) == space_from(l, i as int),
                decreases n - i,
            {
                i = i + 1;
            }
            assert(space_from(l, 0) == i as int);
            let mut j: usize = i + 1;
            while j < n && line.get_char(j) != ' '
                invariant
                    i + 1 <= j <= n,
                    n == l.len(),
                    l == line@,
                    space_from(l, i + 1) == space_from(l, j as int),
                decreases n - j,
            {
                j = j + 1;
            }
            assert(space_from(l, i + 1) == j as int);
            line.substring_char(i + 1, j)
        }
    }

    /// The header lines: every line after the request line, in order,
    /// verbatim. There must be a request line.
    pub fn headers(&self) -> (h: &[String])
        requires
            self@.len() >= 1,
        ensures
            lines_view(h@) == self@.drop_first(),
    {
        let h = vstd::slice::slice_subrange(self.0.as_slice(), 1, self.0.len());
        proof {
            assert(lines_view(h@) =~= self@.drop_first());
        }
        h
    }

    /// How many lines were read: zero when the connection closed, or sent
    /// a blank line, before any header text arrived.
    pub fn len(&self) -> (n: usize)
        ensures
            n == self@.len(),
    {
        self.0.len()
    }
}

} // verus!
