//! Captured subprocess output and its presentation in diagnostics.

use vstd::prelude::*;

use crate::error::join_lines;
use crate::text::{
    all_white, chars_of, fmt_i64, is_blank, line_spans, lines, push_str, signed_decimal, spans,
    trim, trim_bounds,
};
use crate::templates::push_range;

verus! {

/// Captured output from a completed subprocess.
#[derive(Debug)]
pub struct ProcessOutput {
    /// Whether the process returned a successful exit status.
    pub success: bool,
    /// Exit code, absent when a signal ended the process.
    pub code: Option<i32>,
    /// Captured standard output, decoded lossily.
    pub stdout: String,
    /// Captured standard error, decoded lossily.
    pub stderr: String,
}

/// The non-blank lines of `ls`, each trimmed.
pub open spec fn trimmed_nonblank(ls: Seq<Seq<char>>) -> Seq<Seq<char>>
    decreases ls.len(),
{
    if ls.len() == 0 {
        seq![]
    } else {
        let rest = trimmed_nonblank(ls.drop_last());
        if all_white(ls.last()) {
            rest
        } else {
            rest.push(trim(ls.last()))
        }
    }
}

/// The lines of captured output: stdout then stderr, blank lines dropped, each trimmed.
pub open spec fn output_lines(stdout: Seq<char>, stderr: Seq<char>) -> Seq<Seq<char>> {
    trimmed_nonblank(lines(stdout) + lines(stderr))
}

/// The description of an exit status.
pub open spec fn status_text(code: Option<i32>) -> Seq<char> {
    match code {
        Some(c) => signed_decimal(c as int),
        None => "a signal"@,
    }
}

/// The detail appended to a failure message: nothing, or a newline and the output lines.
pub open spec fn failure_text(ls: Seq<Seq<char>>) -> Seq<char> {
    if ls.len() == 0 {
        Seq::empty()
    } else {
        "\n"@ + join_lines(ls)
    }
}

proof fn lemma_trimmed_nonblank_append(a: Seq<Seq<char>>, b: Seq<Seq<char>>)
    ensures
        trimmed_nonblank(a + b) == trimmed_nonblank(a) + trimmed_nonblank(b),
    decreases b.len(),
{
    if b.len() == 0 {
        assert(a + b == a);
    } else {
        assert((a + b).drop_last() == a + b.drop_last());
        lemma_trimmed_nonblank_append(a, b.drop_last());
    }
}

/// Appends the trimmed non-blank lines of `s` to `out`.
fn push_trimmed_lines(out: &mut Vec<String>, s: &str)
    ensures
        final(out)@.map_values(|x: String| x@) == old(out)@.map_values(|x: String| x@) + trimmed_nonblank(lines(s@)),
{
    let v = chars_of(s);
    let sp = line_spans(&v);
    let ghost ls = spans(v@, sp@);
    let mut i: usize = 0;
    while i < sp.len()
        invariant
            i <= sp.len(),
            ls == spans(v@, sp@),
            ls == lines(s@),
            forall|k: int| 0 <= k < sp.len() ==> #[trigger] sp@[k].0 <= sp@[k].1 <= v.len(),
            out@.map_values(|x: String| x@) == old(out)@.map_values(|x: String| x@) + trimmed_nonblank(ls.take(i as int)),
        decreases sp.len() - i,
    {
        let (a, b) = sp[i];
        let ghost line = v@.subrange(a as int, b as int);
        assert(ls[i as int] == line);
        assert(ls.take(i + 1).drop_last() == ls.take(i as int));
        assert(ls.take(i + 1).last() == line);
        let ghost before = out@.map_values(|x: String| x@);
        if !is_blank(&v, a, b) {
            let (x, y) = trim_bounds(&v, a, b);
            let mut t = String::new();
            push_range(&mut t, &v, x, y);
            assert(t@ == trim(line));
            out.push(t);
            assert(out@.map_values(|x: String| x@) == before.push(trim(line)));
        }
        i = i + 1;
    }
    assert(ls.take(sp.len() as int) == ls);
}

impl ProcessOutput {
    /// Records the outcome of a completed process.
    pub fn new(success: bool, code: Option<i32>, stdout: String, stderr: String) -> (r: Self)
        ensures
            r.success == success,
            r.code == code,
            r.stdout@ == stdout@,
            r.stderr@ == stderr@,
    {
        ProcessOutput { success, code, stdout, stderr }
    }

    /// Whether the process returned a successful exit status.
    pub fn success(&self) -> (r: bool)
        ensures
            r == self.success,
    {
        self.success
    }

    /// Describes the exit status for diagnostics: the exit code, or `a signal`.
    pub fn status_description(&self) -> (r: String)
        ensures
            r@ == status_text(self.code),
    {
        match self.code {
            Some(c) => fmt_i64(c as i64),
            None => "a signal".to_owned(),
        }
    }

    /// Returns non-empty stdout and stderr lines in emission order, trimmed.
    pub fn lines(&self) -> (r: Vec<String>)
        ensures
            r@.map_values(|x: String| x@) == output_lines(self.stdout@, self.stderr@),
    {
        let mut r: Vec<String> = Vec::new();
        push_trimmed_lines(&mut r, self.stdout.as_str());
        push_trimmed_lines(&mut r, self.stderr.as_str());
        proof {
            lemma_trimmed_nonblank_append(lines(self.stdout@), lines(self.stderr@));
        }
        r
    }

    /// Returns captured output suitable for inclusion in a failure message.
    pub fn failure_detail(&self) -> (r: String)
        ensures
            r@ == failure_text(output_lines(self.stdout@, self.stderr@)),
    {
        let ls = self.lines();
        let ghost v = ls@.map_values(|x: String| x@);
        if ls.len() == 0 {
            return String::new();
        }
        let mut r = String::new();
        let mut i: usize = 0;
        while i < ls.len()
            invariant
                0 < ls.len(),
                i <= ls.len(),
                v == ls@.map_values(|x: String| x@),
                r@ == "\n"@ + join_lines(v.take(i as int)) || (i == 0 && r@.len() == 0),
                i > 0 ==> r@ == "\n"@ + join_lines(v.take(i as int)),
                i == 0 ==> r@.len() == 0,
            decreases ls.len() - i,
        {
            let ghost before = r@;
            push_str(&mut r, "\n");
            push_str(&mut r, ls[i].as_str());
            proof {
                let now = v.take(i + 1);
                assert(now.drop_last() == v.take(i as int));
                assert(now.last() == ls@[i as int]@);
                if i == 0 {
                    assert(join_lines(now) == now[0]);
                    assert(r@ == "\n"@ + join_lines(now));
                } else {
                    assert(r@ == "\n"@ + join_lines(v.take(i as int)) + "\n"@ + ls@[i as int]@);
                }
            }
            i = i + 1;
        }
        assert(v.take(ls.len() as int) == v);
        r
    }
}

} // verus!
