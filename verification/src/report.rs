//! The line-oriented report: a version header and a plan line, one status
//! line per case, and `#`-prefixed diagnostic lines, with embedded newlines
//! reflowed as comment continuations. [`Tap`] buffers the lines; writing
//! them to their destination is the application's part.

use crate::strutil::{push_char, spec_dec, u64_string};
use vstd::prelude::*;

verus! {

/// A diagnostic's text with every newline turned into a comment
/// continuation.
pub open spec fn spec_reflow(m: Seq<char>) -> Seq<char>
    decreases m.len(),
{
    if m.len() == 0 {
        Seq::empty()
    } else if m[0] == '\n' {
        "\n# "@ + spec_reflow(m.drop_first())
    } else {
        seq![m[0]] + spec_reflow(m.drop_first())
    }
}

proof fn lemma_reflow_snoc(m: Seq<char>, c: char)
    ensures
        spec_reflow(m.push(c)) == spec_reflow(m) + (if c == '\n' {
            "\n# "@
        } else {
            seq![c]
        }),
    decreases m.len(),
{
    let contribution = (if c == '\n' {
        "\n# "@
    } else {
        seq![c]
    });
    if m.len() == 0 {
        assert(m.push(c)[0] == c);
        assert(m.push(c).drop_first() =~= Seq::<char>::empty());
        assert(spec_reflow(Seq::<char>::empty()) == Seq::<char>::empty());
        assert(spec_reflow(m.push(c)) =~= spec_reflow(m) + contribution);
    } else {
        lemma_reflow_snoc(m.drop_first(), c);
        assert(m.push(c).drop_first() =~= m.drop_first().push(c));
        assert(m.push(c)[0] == m[0]);
        assert(spec_reflow(m.push(c)) =~= spec_reflow(m) + contribution);
    }
}

/// The status line for a passing case.
pub open spec fn ok_line(number: u32, name: Seq<char>) -> Seq<char> {
    "ok "@ + spec_dec(number as nat) + " - "@ + name
}

/// The status line for a failing case.
pub open spec fn not_ok_line(number: u32, name: Seq<char>) -> Seq<char> {
    "not ok "@ + spec_dec(number as nat) + " - "@ + name
}

/// The comment line for a diagnostic.
pub open spec fn diagnostic_line(message: Seq<char>) -> Seq<char> {
    "# "@ + spec_reflow(message)
}

/// The plan's two lines.
pub open spec fn plan_lines(start: u32, finish: u32) -> Seq<Seq<char>> {
    seq![
        "TAP version 14"@,
        spec_dec(start as nat) + ".."@ + spec_dec(finish as nat),
    ]
}

/// A report stream: a plan, then status lines with diagnostics.
pub trait Report {
    /// The lines emitted so far, in order.
    spec fn lines(&self) -> Seq<Seq<char>>;

    /// Emits the version header and the plan line.
    fn plan(&mut self, start: u32, finish: u32)
        ensures
            final(self).lines() == old(self).lines() + plan_lines(start, finish),
    ;

    /// Emits the status line for a passing case.
    fn ok(&mut self, number: u32, name: &str)
        ensures
            final(self).lines() == old(self).lines().push(ok_line(number, name@)),
    ;

    /// Emits the status line for a failing case.
    fn not_ok(&mut self, number: u32, name: &str)
        ensures
            final(self).lines() == old(self).lines().push(not_ok_line(number, name@)),
    ;

    /// Emits one diagnostic comment, reflowing embedded newlines.
    fn diagnostic(&mut self, message: &str)
        ensures
            final(self).lines() == old(self).lines().push(diagnostic_line(message@)),
    ;
}

/// The buffering reporter: lines accumulate here and the application drains
/// them to its output.
pub struct Tap {
    pub lines: Vec<String>,
}

impl Tap {
    pub fn new() -> (t: Tap)
        ensures
            t.lines() == Seq::<Seq<char>>::empty(),
    {
        let t = Tap { lines: Vec::new() };
        proof {
            assert(t.lines.deep_view() =~= Seq::<Seq<char>>::empty());
        }
        t
    }

    /// Hands the buffered lines over and leaves the buffer empty.
    pub fn take_lines(&mut self) -> (r: Vec<String>)
        ensures
            r.deep_view() == old(self).lines(),
            final(self).lines() == Seq::<Seq<char>>::empty(),
    {
        let mut out: Vec<String> = Vec::new();
        core::mem::swap(&mut out, &mut self.lines);
        proof {
            assert(self.lines.deep_view() =~= Seq::<Seq<char>>::empty());
        }
        out
    }

    fn push_line(&mut self, line: String)
        ensures
            final(self).lines() == old(self).lines().push(line@),
    {
        let ghost before = self.lines.deep_view();
        self.lines.push(line);
        proof {
            assert(self.lines.deep_view() =~= before.push(line@));
        }
    }
}

fn status_line(prefix: &str, number: u32, name: &str) -> (r: String)
    ensures
        r@ == prefix@ + spec_dec(number as nat) + " - "@ + name@,
{
    let mut s: String = prefix.to_owned();
    let digits = u64_string(number as u64);
    s.append(digits.as_str());
    s.append(" - ");
    s.append(name);
    s
}

fn reflow(message: &str) -> (r: String)
    ensures
        r@ == spec_reflow(message@),
{
    let n = message.unicode_len();
    let mut out = String::new();
    let mut i: usize = 0;
    proof {
        assert(message@.take(0) =~= Seq::<char>::empty());
        assert(out@ =~= spec_reflow(message@.take(0)));
    }
    while i < n
        invariant
            i <= n,
            n == message@.len(),
            out@ == spec_reflow(message@.take(i as int)),
        decreases n - i,
    {
        let c = message.get_char(i);
        proof {
            lemma_reflow_snoc(message@.take(i as int), message@[i as int]);
            assert(message@.take(i as int).push(message@[i as int]) =~= message@.take(i + 1));
        }
        if c == '\n' {
            out.append("\n# ");
        } else {
            push_char(&mut out, c);
        }
        i = i + 1;
    }
    proof {
        assert(message@.take(n as int) =~= message@);
    }
    out
}

impl Report for Tap {
    open spec fn lines(&self) -> Seq<Seq<char>> {
        self.lines.deep_view()
    }

    fn plan(&mut self, start: u32, finish: u32) {
        self.push_line("TAP version 14".to_owned());
        let digits = u64_string(start as u64);
        let mut s: String = digits;
        s.append("..");
        let fin = u64_string(finish as u64);
        s.append(fin.as_str());
        self.push_line(s);
        proof {
            assert(self.lines.deep_view() =~= old(self).lines.deep_view() + plan_lines(
                start,
                finish,
            ));
        }
    }

    fn ok(&mut self, number: u32, name: &str) {
        let line = status_line("ok ", number, name);
        self.push_line(line);
    }

    fn not_ok(&mut self, number: u32, name: &str) {
        let line = status_line("not ok ", number, name);
        self.push_line(line);
    }

    fn diagnostic(&mut self, message: &str) {
        let mut s: String = "# ".to_owned();
        let body = reflow(message);
        s.append(body.as_str());
        self.push_line(s);
    }
}

} // verus!
