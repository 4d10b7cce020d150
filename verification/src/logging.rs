//! The service log (`dsh-web.log`): incremental reading and the normal
//! shutdown mark.
use vstd::prelude::*;

use crate::text::{chars_of, contains, contains_str, lemma_lines_concat, lines, lines_exec, string_of};

verus! {

/// File name of the service log inside the application's log directory.
pub const LOG_FILE_NAME: &'static str = "dsh-web.log";

/// Marker whose presence in the log tells that the last run ended normally.
pub const NORMAL_SHUTDOWN_MARK: &'static str = "--- normal shutdown ---";

/// Line appended to the log on a normal stop or exit.
pub const NORMAL_SHUTDOWN_LINE: &'static str = "[dsh-desktop] --- normal shutdown ---";

/// Result of an incremental read of the log.
pub struct TailResult {
    pub offset: u64,
    pub lines: Vec<String>,
    pub truncated: bool,
}

/// The non-empty lines of `ls`, in order.
pub open spec fn nonempty_lines(ls: Seq<Seq<char>>) -> Seq<Seq<char>>
    decreases ls.len(),
{
    if ls.len() == 0 {
        seq![]
    } else if ls[0].len() > 0 {
        seq![ls[0]] + nonempty_lines(ls.drop_first())
    } else {
        nonempty_lines(ls.drop_first())
    }
}

/// Lines delivered for text read from byte offset `start`: when the read
/// starts inside a line (`at_line_start` false) the incomplete first piece is
/// dropped; empty lines are left out.
pub open spec fn tail_lines(content: Seq<char>, start: u64, at_line_start: bool) -> Seq<Seq<char>> {
    let ls = lines(content);
    let kept = if start > 0 && !at_line_start && ls.len() > 0 {
        ls.drop_first()
    } else {
        ls
    };
    nonempty_lines(kept)
}

/// Where a read resumes: at the previous offset, or at the start when the
/// file has shrunk below it (truncated or rotated).
pub open spec fn tail_start(offset: u64, size: u64) -> u64 {
    if offset > size {
        0
    } else {
        offset
    }
}

/// `r` holds exactly the characters of the sequences in `t`.
pub open spec fn holds_lines(r: Seq<String>, t: Seq<Seq<char>>) -> bool {
    &&& r.len() == t.len()
    &&& forall|k: int| 0 <= k < r.len() ==> #[trigger] r[k]@ == t[k]
}

/// Whether a read from `start` begins a line: at the start of the file, or
/// where `line_start` reports that the byte before is a line feed.
pub open spec fn begins_line<B: Fn(u64) -> bool>(line_start: B, start: u64, b: bool) -> bool {
    if start == 0 {
        b
    } else {
        call_ensures(line_start, (start,), b)
    }
}

/// Incremental read of a log of `size` bytes from byte `offset` on;
/// `read_from(start)` reads the file's text from `start` to its end and
/// `line_start(start)` tells whether the byte before `start` ends a line;
/// both are called only when the file is not empty, the latter only for
/// `start > 0`.
pub fn tail_log<B: Fn(u64) -> bool, F: Fn(u64) -> String>(
    offset: u64,
    size: u64,
    line_start: B,
    read_from: F,
) -> (r: TailResult)
    requires
        forall|s: u64| call_requires(line_start, (s,)),
        forall|s: u64| call_requires(read_from, (s,)),
    ensures
        size == 0 ==> r.offset == 0 && r.lines@.len() == 0 && !r.truncated,
        size > 0 ==> {
            &&& r.offset == size
            &&& r.truncated == (offset > size)
            &&& exists|content: String, b: bool|
                #[trigger] call_ensures(read_from, (tail_start(offset, size),), content)
                    && #[trigger] begins_line(line_start, tail_start(offset, size), b)
                    && holds_lines(r.lines@, tail_lines(content@, tail_start(offset, size), b))
        },
        0 < size && offset <= size ==> exists|content: String, b: bool|
            #[trigger] call_ensures(read_from, (offset,), content) && #[trigger] begins_line(
                line_start,
                offset,
                b,
            ) && holds_lines(r.lines@, tail_lines(content@, offset, b)),
        0 < size && offset > size ==> exists|content: String|
            #[trigger] call_ensures(read_from, (0u64,), content) && holds_lines(
                r.lines@,
                tail_lines(content@, 0, true),
            ),
{
    if size == 0 {
        return TailResult { offset: 0, lines: Vec::new(), truncated: false };
    }
    let truncated = offset > size;
    let start = if truncated {
        0
    } else {
        offset
    };
    let boundary = if start == 0 {
        true
    } else {
        line_start(start)
    };
    let content = read_from(start);
    let v = chars_of(content.as_str());
    let ls = lines_exec(&v);
    let ghost lv = lines(v@);
    let mut i: usize = if start > 0 && !boundary && ls.len() > 0 {
        1
    } else {
        0
    };
    let ghost kept = if start > 0 && !boundary && lv.len() > 0 {
        lv.drop_first()
    } else {
        lv
    };
    assert(kept == lv.skip(i as int));
    let mut out: Vec<String> = Vec::new();
    let ghost mut ov: Seq<Seq<char>> = seq![];
    while i < ls.len()
        invariant
            i <= ls@.len(),
            ls@.len() == lv.len(),
            forall|k: int| 0 <= k < ls@.len() ==> #[trigger] ls@[k]@ == lv[k],
            holds_lines(out@, ov),
            lv == lines(content@),
            kept == (if start > 0 && !boundary && lv.len() > 0 {
                lv.drop_first()
            } else {
                lv
            }),
            ov + nonempty_lines(lv.skip(i as int)) == nonempty_lines(kept),
        decreases ls.len() - i,
    {
        let ghost rest = lv.skip(i as int);
        assert(rest[0] == lv[i as int]);
        assert(rest.drop_first() == lv.skip(i + 1));
        if ls[i].len() > 0 {
            let s = string_of(&ls[i]);
            proof {
                ov = ov.push(lv[i as int]);
            }
            out.push(s);
            assert(ov + nonempty_lines(lv.skip(i + 1)) == nonempty_lines(kept));
        }
        i = i + 1;
    }
    proof {
        assert(lv.skip(i as int).len() == 0);
        assert(ov + Seq::<Seq<char>>::empty() == ov);
        assert(start == tail_start(offset, size));
        assert(ov == tail_lines(content@, start, boundary));
        assert(call_ensures(read_from, (tail_start(offset, size),), content));
        assert(begins_line(line_start, tail_start(offset, size), boundary));
    }
    TailResult { offset: size, lines: out, truncated }
}

/// No line delivered by an incremental read is empty.
pub proof fn lemma_tail_lines_nonempty(content: Seq<char>, start: u64, at_line_start: bool)
    ensures
        forall|k: int|
            0 <= k < tail_lines(content, start, at_line_start).len() ==> #[trigger] tail_lines(
                content,
                start,
                at_line_start,
            )[k].len() > 0,
{
    let ls = lines(content);
    let kept = if start > 0 && !at_line_start && ls.len() > 0 {
        ls.drop_first()
    } else {
        ls
    };
    lemma_nonempty_lines(kept);
}

proof fn lemma_nonempty_lines(ls: Seq<Seq<char>>)
    ensures
        forall|k: int|
            0 <= k < nonempty_lines(ls).len() ==> #[trigger] nonempty_lines(ls)[k].len() > 0,
    decreases ls.len(),
{
    if ls.len() > 0 {
        lemma_nonempty_lines(ls.drop_first());
        let r = nonempty_lines(ls);
        let rest = nonempty_lines(ls.drop_first());
        if ls[0].len() > 0 {
            assert forall|k: int| 0 <= k < r.len() implies #[trigger] r[k].len() > 0 by {
                if k > 0 {
                    assert(r[k] == rest[k - 1]);
                }
            }
        }
    }
}

/// An incremental read resumes exactly where the previous one ended: from
/// `offset` itself whenever the file is at least that long, and from the
/// start only when the file has become shorter than `offset`.
pub proof fn lemma_tail_resumes_at_offset(offset: u64, size: u64)
    ensures
        offset <= size ==> tail_start(offset, size) == offset,
        offset > size ==> tail_start(offset, size) == 0,
{
}

/// A read that finds nothing new delivers no lines, wherever it starts.
pub proof fn lemma_tail_of_nothing_is_empty(start: u64, at_line_start: bool)
    ensures
        tail_lines(Seq::<char>::empty(), start, at_line_start).len() == 0,
{
    assert(lines(Seq::<char>::empty()).len() == 0);
}

proof fn lemma_nonempty_lines_concat(x: Seq<Seq<char>>, y: Seq<Seq<char>>)
    ensures
        nonempty_lines(x + y) == nonempty_lines(x) + nonempty_lines(y),
    decreases x.len(),
{
    if x.len() == 0 {
        assert(x + y == y);
    } else {
        assert((x + y)[0] == x[0]);
        assert((x + y).drop_first() == x.drop_first() + y);
        lemma_nonempty_lines_concat(x.drop_first(), y);
        if x[0].len() > 0 {
            assert(seq![x[0]] + (nonempty_lines(x.drop_first()) + nonempty_lines(y)) == (seq![x[0]]
                + nonempty_lines(x.drop_first())) + nonempty_lines(y));
        }
    }
}

/// Reading the log in two steps loses and repeats nothing: when the first
/// read (from the start) ended at the end of a line, the lines of the second
/// read (from there on) follow the first read's lines exactly as a single
/// read of the whole text would deliver them.
pub proof fn lemma_split_read_keeps_lines(first: Seq<char>, second: Seq<char>, start: u64)
    requires
        first.len() > 0,
        first.last() == '\n',
    ensures
        tail_lines(first, 0, true) + tail_lines(second, start, true) == tail_lines(
            first + second,
            0,
            true,
        ),
{
    lemma_lines_concat(first, second);
    lemma_nonempty_lines_concat(lines(first), lines(second));
}

/// The log text holds the normal shutdown mark.
pub fn has_shutdown_mark(content: &str) -> (r: bool)
    ensures
        r == contains(content@, NORMAL_SHUTDOWN_MARK@),
{
    let v = chars_of(content);
    contains_str(&v, NORMAL_SHUTDOWN_MARK)
}

} // verus!
