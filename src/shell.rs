//! Single-quote escaping for shell command strings.
use vstd::prelude::*;
use vstd::string::*;

verus! {

/// The escaped form of `s` for use inside a single-quoted shell word:
/// each `'` becomes `'\''`, every other character stays.
pub open spec fn escape_seq(s: Seq<char>) -> Seq<char>
    decreases s.len(),
{
    if s.len() == 0 {
        Seq::empty()
    } else {
        escape_char(s[0]) + escape_seq(s.drop_first())
    }
}

pub open spec fn escape_char(c: char) -> Seq<char> {
    if c == '\'' {
        seq!['\'', '\\', '\'', '\'']
    } else {
        seq![c]
    }
}

pub proof fn lemma_escape_append(a: Seq<char>, b: Seq<char>)
    ensures
        escape_seq(a + b) == escape_seq(a) + escape_seq(b),
    decreases a.len(),
{
    if a.len() == 0 {
        assert(a + b =~= b);
    } else {
        assert((a + b).drop_first() =~= a.drop_first() + b);
        lemma_escape_append(a.drop_first(), b);
        assert(escape_seq(a + b) =~= escape_seq(a) + escape_seq(b));
    }
}

pub proof fn lemma_escape_single(c: char)
    ensures
        escape_seq(seq![c]) == escape_char(c),
{
    let e = Seq::<char>::empty();
    assert(seq![c].drop_first() =~= e);
    assert(escape_seq(e) == e);
    assert(escape_seq(seq![c]) == escape_char(seq![c][0]) + escape_seq(seq![c].drop_first()));
    assert(escape_char(c) + e =~= escape_char(c));
}

/// Escapes `s` for a single-quoted shell context: every `'` is replaced by `'\''`.
pub fn shell_escape(s: &str) -> (r: String)
    ensures
        r@ == escape_seq(s@),
{
    let n = s.unicode_len();
    let mut out = String::new();
    let mut start: usize = 0;
    let mut i: usize = 0;
    while i < n
        invariant
            n == s@.len(),
            start <= i <= n,
            out@ + escape_seq(s@.subrange(start as int, i as int)) == escape_seq(
                s@.subrange(0, i as int),
            ),
            forall|k: int| start <= k < i ==> s@[k] != '\'',
        decreases n - i,
    {
        proof {
            lemma_escape_append(s@.subrange(0, i as int), seq![s@[i as int]]);
            lemma_escape_append(s@.subrange(start as int, i as int), seq![s@[i as int]]);
            lemma_escape_single(s@[i as int]);
            assert(s@.subrange(0, i as int) + seq![s@[i as int]] =~= s@.subrange(0, i + 1));
            assert(s@.subrange(start as int, i as int) + seq![s@[i as int]] =~= s@.subrange(
                start as int,
                i + 1,
            ));
        }
        let c = s.get_char(i);
        if c == '\'' {
            proof {
                lemma_escape_plain(s@.subrange(start as int, i as int));
                reveal_strlit("'\\''");
            }
            let piece = s.substring_char(start, i);
            out.append(piece);
            out.append("'\\''");
            start = i + 1;
            assert(s@.subrange(start as int, i + 1) =~= Seq::<char>::empty());
        }
        i = i + 1;
    }
    proof {
        lemma_escape_plain(s@.subrange(start as int, n as int));
        assert(s@.subrange(0, n as int) =~= s@);
    }
    let rest = s.substring_char(start, n);
    out.append(rest);
    out
}

/// Escaping leaves a quote-free sequence unchanged.
pub proof fn lemma_escape_plain(s: Seq<char>)
    requires
        forall|k: int| 0 <= k < s.len() ==> s[k] != '\'',
    ensures
        escape_seq(s) == s,
    decreases s.len(),
{
    if s.len() > 0 {
        lemma_escape_plain(s.drop_first());
        assert(escape_seq(s) =~= s);
    }
}

/// `s` as one single-quoted shell word.
pub open spec fn quoted(s: Seq<char>) -> Seq<char> {
    seq!['\''] + escape_seq(s) + seq!['\'']
}

/// Wraps `s` in single quotes so that a shell reads it back literally.
pub fn shell_quote(s: &str) -> (r: String)
    ensures
        r@ == quoted(s@),
{
    proof {
        reveal_strlit("'");
    }
    let mut out = String::from_str("'");
    let e = shell_escape(s);
    out.append(e.as_str());
    out.append("'");
    out
}

/// The characters a POSIX shell reads from a word made of single-quoted runs,
/// backslash escapes and plain characters, starting inside quotes when `inside`.
pub open spec fn shell_reads(t: Seq<char>, inside: bool) -> Seq<char>
    decreases t.len(),
{
    if t.len() == 0 {
        Seq::empty()
    } else if inside {
        if t[0] == '\'' {
            shell_reads(t.drop_first(), false)
        } else {
            seq![t[0]] + shell_reads(t.drop_first(), true)
        }
    } else if t[0] == '\'' {
        shell_reads(t.drop_first(), true)
    } else if t[0] == '\\' && t.len() > 1 {
        seq![t[1]] + shell_reads(t.subrange(2, t.len() as int), false)
    } else {
        seq![t[0]] + shell_reads(t.drop_first(), false)
    }
}

proof fn lemma_reads_escaped(s: Seq<char>, rest: Seq<char>)
    ensures
        shell_reads(escape_seq(s) + rest, true) == s + shell_reads(rest, true),
    decreases s.len(),
{
    if s.len() == 0 {
        assert(escape_seq(s) + rest =~= rest);
        assert(s + shell_reads(rest, true) =~= shell_reads(rest, true));
    } else {
        let c = s[0];
        let tail = escape_seq(s.drop_first()) + rest;
        lemma_reads_escaped(s.drop_first(), rest);
        let t = escape_seq(s) + rest;
        assert(t =~= escape_char(c) + tail);
        if c == '\'' {
            assert(t.drop_first() =~= seq!['\\', '\'', '\''] + tail);
            let u = t.drop_first();
            let v = seq!['\''] + tail;
            assert(u.subrange(2, u.len() as int) =~= v);
            assert(v.drop_first() =~= tail);
            assert(shell_reads(v, false) == shell_reads(tail, true));
            assert(shell_reads(u, false) == seq![u[1]] + shell_reads(v, false));
            assert(shell_reads(t, true) == shell_reads(u, false));
        } else {
            assert(t.drop_first() =~= tail);
            assert(shell_reads(t, true) == seq![c] + shell_reads(tail, true));
        }
        assert(s =~= seq![c] + s.drop_first());
        assert(seq![c] + (s.drop_first() + shell_reads(rest, true)) =~= s + shell_reads(rest, true));
    }
}

/// A shell reads a quoted string back as exactly the original characters,
/// whatever single quotes it contains.
pub proof fn lemma_quote_round_trip(s: Seq<char>)
    ensures
        shell_reads(quoted(s), false) == s,
{
    let q = quoted(s);
    assert(q.drop_first() =~= escape_seq(s) + seq!['\'']);
    lemma_reads_escaped(s, seq!['\'']);
    assert(seq!['\''].drop_first() =~= Seq::<char>::empty());
    assert(shell_reads(seq!['\''], true) == shell_reads(Seq::<char>::empty(), false));
    assert(s + Seq::<char>::empty() =~= s);
}

} // verus!
