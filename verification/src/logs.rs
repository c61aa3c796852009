//! Reading a process log back: decoding its bytes and picking its newest lines.
use vstd::prelude::*;
use crate::sys::{decode_gbk, gbk_decode, push_char, utf8_text};

verus! {

/// A line without the carriage return of a `\r\n` ending.
pub open spec fn strip_cr(line: Seq<char>) -> Seq<char> {
    if line.len() > 0 && line.last() == '\r' {
        line.drop_last()
    } else {
        line
    }
}

/// Reading `s` from the left: the lines ended so far and the line in progress.
pub open spec fn scan_lines(s: Seq<char>) -> (Seq<Seq<char>>, Seq<char>)
    decreases s.len(),
{
    if s.len() == 0 {
        (seq![], seq![])
    } else {
        let (done, cur) = scan_lines(s.drop_last());
        if s.last() == '\n' {
            (done.push(strip_cr(cur)), seq![])
        } else {
            (done, cur.push(s.last()))
        }
    }
}

/// The lines of a text: split at `\n` or `\r\n`, terminators dropped, the
/// final terminator optional (so an empty text has no lines).
pub open spec fn lines_of(s: Seq<char>) -> Seq<Seq<char>> {
    let (done, cur) = scan_lines(s);
    if cur.len() > 0 {
        done.push(cur)
    } else {
        done
    }
}

/// Lines joined by `\n`.
pub open spec fn join_lines(lines: Seq<Seq<char>>) -> Seq<char>
    decreases lines.len(),
{
    if lines.len() == 0 {
        seq![]
    } else if lines.len() == 1 {
        lines[0]
    } else {
        join_lines(lines.drop_last()) + seq!['\n'] + lines.last()
    }
}

/// How many lines a request for `wanted` lines gets out of `available`:
/// all of them when `wanted` is zero or covers them all.
pub open spec fn tail_count(available: nat, wanted: nat) -> nat {
    if wanted > 0 && available > wanted {
        wanted
    } else {
        available
    }
}

/// The newest `wanted` lines of a text, newest first (all lines when `wanted` is zero).
pub open spec fn newest_lines_of(text: Seq<char>, wanted: nat) -> Seq<Seq<char>> {
    let all = lines_of(text);
    all.reverse().take(tail_count(all.len(), wanted) as int)
}

/// The text a log file's bytes hold: UTF-8 where they are well-formed UTF-8, GBK otherwise.
pub open spec fn log_text(bytes: Seq<u8>) -> Seq<char> {
    if vstd::utf8::valid_utf8(bytes) {
        vstd::utf8::decode_utf8(bytes)
    } else {
        gbk_decode(bytes)
    }
}

proof fn lemma_take_last<A>(s: Seq<A>, i: int)
    requires
        0 <= i < s.len(),
    ensures
        s.take(i + 1).drop_last() == s.take(i),
        s.take(i + 1).last() == s[i],
{
    assert(s.take(i + 1).drop_last() =~= s.take(i));
}

/// Splits a text into its lines.
pub fn split_lines(text: &str) -> (res: Vec<Vec<char>>)
    ensures
        res.deep_view() == lines_of(text@),
{
    let chars = text_chars(text);
    let mut done: Vec<Vec<char>> = Vec::new();
    let mut cur: Vec<char> = Vec::new();
    let n = chars.len();
    for i in 0..n
        invariant
            n == chars@.len(),
            chars@ == text@,
            scan_lines(chars@.take(i as int)) == (done.deep_view(), cur@),
    {
        let c = chars[i];
        proof {
            lemma_take_last(chars@, i as int);
        }
        if c == '\n' {
            let mut line = cur;
            if line.len() > 0 && line[line.len() - 1] == '\r' {
                line.pop();
            }
            assert(line@ == strip_cr(cur@));
            let ghost old_done = done.deep_view();
            assert(line.deep_view() =~= line@);
            done.push(line);
            assert(done.deep_view() =~= old_done.push(strip_cr(cur@)));
            cur = Vec::new();
            assert(cur@ =~= seq![]);
        } else {
            cur.push(c);
        }
    }
    assert(chars@.take(n as int) =~= text@);
    if cur.len() > 0 {
        let ghost old_done = done.deep_view();
        let ghost last = cur@;
        assert(cur.deep_view() =~= cur@);
        done.push(cur);
        assert(done.deep_view() =~= old_done.push(last));
    }
    done
}

/// The characters of a text, in order.
fn text_chars(text: &str) -> (res: Vec<char>)
    ensures
        res@ == text@,
{
    let mut res: Vec<char> = Vec::new();
    for c in it: text.chars()
        invariant
            res@ == it.seq().take(it.index() as int),
    {
        res.push(c);
    }
    res
}

/// The newest `lines` lines of a text, newest first, joined by `\n`; all of
/// them when `lines` is zero.
pub fn newest_lines(text: &str, lines: usize) -> (res: String)
    ensures
        res@ == join_lines(newest_lines_of(text@, lines as nat)),
{
    let all = split_lines(text);
    let n = all.len();
    let end = if lines > 0 && n > lines { lines } else { n };
    let ghost rev = all.deep_view().reverse();
    let mut out = String::new();
    for k in 0..end
        invariant
            n == all.len(),
            end <= n,
            rev == all.deep_view().reverse(),
            out@ == join_lines(rev.take(k as int)),
    {
        if k > 0 {
            out.append("\n");
            proof {
                reveal_strlit("\n");
            }
        }
        let line = &all[n - 1 - k];
        assert(line@ == rev[k as int]);
        let ghost mid = out@;
        for j in 0..line.len()
            invariant
                out@ == mid + line@.take(j as int),
        {
            push_char(&mut out, line[j]);
            assert(line@.take(j + 1) =~= line@.take(j as int).push(line@[j as int]));
        }
        assert(line@.take(line.len() as int) =~= line@);
        proof {
            let t = rev.take(k + 1);
            assert(t.drop_last() =~= rev.take(k as int));
            if k == 0 {
                assert(out@ =~= t[0]);
            } else {
                assert(out@ =~= join_lines(t.drop_last()) + seq!['\n'] + t.last());
            }
        }
    }
    out
}

/// The text of a log file's bytes: UTF-8 when they are well-formed, else GBK.
pub fn decode_log(bytes: &[u8]) -> (res: String)
    requires
        !vstd::utf8::valid_utf8(bytes@) ==> bytes@.len() * 3 + 32 <= isize::MAX,
    ensures
        res@ == log_text(bytes@),
{
    match utf8_text(bytes) {
        Some(text) => text,
        None => decode_gbk(bytes),
    }
}

/// What a request for the newest `lines` lines of a log file gives.
pub fn tail_log(bytes: &[u8], lines: usize) -> (res: String)
    requires
        !vstd::utf8::valid_utf8(bytes@) ==> bytes@.len() * 3 + 32 <= isize::MAX,
    ensures
        res@ == join_lines(newest_lines_of(log_text(bytes@), lines as nat)),
{
    let text = decode_log(bytes);
    newest_lines(text.as_str(), lines)
}

} // verus!
