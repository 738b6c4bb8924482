//! The line discipline of the wire protocol. A request travels as lines —
//! count line, then a length line and an argument line per argument — and
//! the transport hands them back one line at a time. This module relates the
//! flat encoded frame to those lines and proves the round trip: the frame a
//! node encodes splits back into lines that decode to the very request it
//! encoded.

use crate::num::{dec_str, is_dec_digit, lemma_dec_str_digits, lemma_digits_val_of_dec_str};
use crate::request::{int_line_ok, spec_parse_count, spec_params_of_lines};
use crate::response::{bulk_wire, crlf, wire_byte_len};
use crate::text::{is_line_ws, lemma_trim_line_of, spec_trim};
use crate::utils::{params_wire, request_wire};
use vstd::prelude::*;

verus! {

/// The length of the first line of `s`: everything up to and including the
/// first newline, or all of `s` when no newline remains.
pub open spec fn first_line_len(s: Seq<char>) -> int
    decreases s.len(),
{
    if s.len() == 0 {
        0
    } else if s[0] == '\n' {
        1
    } else {
        1 + first_line_len(s.drop_first())
    }
}

proof fn lemma_first_line_len_bounds(s: Seq<char>)
    ensures
        0 <= first_line_len(s) <= s.len(),
        s.len() > 0 ==> 1 <= first_line_len(s),
    decreases s.len(),
{
    if s.len() > 0 && s[0] != '\n' {
        lemma_first_line_len_bounds(s.drop_first());
    }
}

/// `s` cut into lines, each ending at a newline; a last fragment without a
/// newline stands as a line of its own.
pub open spec fn split_lines(s: Seq<char>) -> Seq<Seq<char>>
    decreases s.len(),
    via split_lines_decreases
{
    if s.len() == 0 {
        Seq::empty()
    } else {
        let l = first_line_len(s);
        seq![s.take(l)] + split_lines(s.skip(l))
    }
}

#[via_fn]
proof fn split_lines_decreases(s: Seq<char>) {
    lemma_first_line_len_bounds(s);
}

/// Lines joined back into one character sequence.
pub open spec fn join_lines(lines: Seq<Seq<char>>) -> Seq<char>
    decreases lines.len(),
{
    if lines.len() == 0 {
        Seq::empty()
    } else {
        lines.first() + join_lines(lines.drop_first())
    }
}

/// A well-formed transport line: it ends with a newline and holds no other.
pub open spec fn line_wf(l: Seq<char>) -> bool {
    l.len() > 0 && l.last() == '\n' && (forall|i: int| 0 <= i < l.len() - 1 ==> l[i] != '\n')
}

proof fn lemma_join_append(a: Seq<Seq<char>>, b: Seq<Seq<char>>)
    ensures
        join_lines(a + b) == join_lines(a) + join_lines(b),
    decreases a.len(),
{
    if a.len() == 0 {
        assert(a + b =~= b);
        assert(join_lines(a) + join_lines(b) =~= join_lines(b));
    } else {
        assert((a + b).first() == a.first());
        assert((a + b).drop_first() =~= a.drop_first() + b);
        lemma_join_append(a.drop_first(), b);
        assert(a.first() + (join_lines(a.drop_first()) + join_lines(b)) =~= (a.first()
            + join_lines(a.drop_first())) + join_lines(b));
    }
}

proof fn lemma_first_line_of_wf(l: Seq<char>, rest: Seq<char>)
    requires
        line_wf(l),
    ensures
        first_line_len(l + rest) == l.len(),
    decreases l.len(),
{
    let s = l + rest;
    if l.len() == 1 {
        assert(s[0] == '\n');
    } else {
        assert(s[0] == l[0]);
        assert(l[0] != '\n');
        assert(s.drop_first() =~= l.drop_first() + rest);
        assert(l.drop_first().last() == l.last());
        assert(forall|i: int|
            0 <= i < l.drop_first().len() - 1 ==> l.drop_first()[i] == l[i + 1] && l[i + 1]
                != '\n');
        assert(line_wf(l.drop_first()));
        lemma_first_line_of_wf(l.drop_first(), rest);
    }
}

/// Splitting inverts joining on well-formed lines.
pub proof fn lemma_split_join(lines: Seq<Seq<char>>)
    requires
        forall|i: int| 0 <= i < lines.len() ==> line_wf(#[trigger] lines[i]),
    ensures
        split_lines(join_lines(lines)) == lines,
    decreases lines.len(),
{
    if lines.len() == 0 {
    } else {
        let first = lines.first();
        let rest = lines.drop_first();
        let s = join_lines(lines);
        assert(line_wf(first));
        assert(s == first + join_lines(rest));
        lemma_first_line_of_wf(first, join_lines(rest));
        assert(first_line_len(s) == first.len());
        assert(s.len() >= first.len());
        assert(s.take(first.len() as int) =~= first);
        assert(s.skip(first.len() as int) =~= join_lines(rest));
        assert(forall|i: int|
            0 <= i < rest.len() ==> rest[i] == lines[i + 1] && line_wf(#[trigger] rest[i]));
        lemma_split_join(rest);
        assert(split_lines(s) =~= lines);
    }
}

/// The count line that opens the frame of a request with `n` arguments.
pub open spec fn count_line(n: nat) -> Seq<char> {
    seq!['*'] + dec_str(n) + crlf()
}

/// The length line announcing one argument; it counts the argument's bytes.
pub open spec fn length_line(p: Seq<char>) -> Seq<char> {
    seq!['$'] + dec_str(wire_byte_len(p)) + crlf()
}

/// The two lines that frame one argument.
pub open spec fn param_lines(p: Seq<char>) -> Seq<Seq<char>> {
    seq![length_line(p), p + crlf()]
}

/// The framed lines of a run of arguments, in order.
pub open spec fn params_lines(params: Seq<Seq<char>>) -> Seq<Seq<char>>
    decreases params.len(),
{
    if params.len() == 0 {
        Seq::empty()
    } else {
        params_lines(params.drop_last()) + param_lines(params.last())
    }
}

/// All lines of a request's frame.
pub open spec fn request_lines(params: Seq<Seq<char>>) -> Seq<Seq<char>> {
    seq![count_line(params.len())] + params_lines(params)
}

/// An argument that survives the line transport unchanged: it holds no
/// newline, and no whitespace stands at either of its edges (the transport
/// trims the edges of every line it hands over). Its byte count fitting the
/// length line's integer is part of the bargain.
pub open spec fn framable(p: Seq<char>) -> bool {
    &&& forall|i: int| 0 <= i < p.len() ==> p[i] != '\n'
    &&& (p.len() > 0 ==> !is_line_ws(p[0]) && !is_line_ws(p.last()))
    &&& wire_byte_len(p) <= i32::MAX
}

proof fn lemma_join_params(params: Seq<Seq<char>>)
    ensures
        join_lines(params_lines(params)) == params_wire(params),
    decreases params.len(),
{
    if params.len() == 0 {
    } else {
        let p = params.last();
        lemma_join_params(params.drop_last());
        lemma_join_append(params_lines(params.drop_last()), param_lines(p));
        assert(join_lines(Seq::<Seq<char>>::empty()) =~= Seq::<char>::empty());
        assert(param_lines(p).drop_first() =~= seq![p + crlf()]);
        assert(seq![p + crlf()].drop_first() =~= Seq::<Seq<char>>::empty());
        assert(join_lines(seq![p + crlf()]) =~= p + crlf());
        assert(join_lines(param_lines(p)) =~= length_line(p) + (p + crlf()));
        assert(bulk_wire(p) =~= length_line(p) + (p + crlf()));
    }
}

/// The flat frame is exactly its lines joined.
pub proof fn lemma_join_request(params: Seq<Seq<char>>)
    ensures
        join_lines(request_lines(params)) == request_wire(params),
{
    lemma_join_params(params);
    lemma_join_append(seq![count_line(params.len())], params_lines(params));
    assert(join_lines(Seq::<Seq<char>>::empty()) =~= Seq::<char>::empty());
    assert(seq![count_line(params.len())].drop_first() =~= Seq::<Seq<char>>::empty());
    assert(join_lines(seq![count_line(params.len())]) =~= count_line(params.len()));
    assert(request_lines(params) =~= seq![count_line(params.len())] + params_lines(params));
    assert(request_wire(params) =~= count_line(params.len()) + params_wire(params));
}

proof fn lemma_dec_str_has_no_ctl(n: nat)
    ensures
        forall|i: int| 0 <= i < dec_str(n).len() ==> !is_line_ws(#[trigger] dec_str(n)[i])
            && dec_str(n)[i] != '\n',
{
    lemma_dec_str_digits(n);
    assert(forall|i: int|
        0 <= i < dec_str(n).len() ==> is_dec_digit(#[trigger] dec_str(n)[i]));
}

proof fn lemma_marker_line_wf(head: Seq<char>)
    requires
        head.len() > 0,
        forall|i: int| 0 <= i < head.len() ==> head[i] != '\n',
    ensures
        line_wf(head + crlf()),
{
    let l = head + crlf();
    assert(l.last() == '\n');
    assert(forall|i: int| 0 <= i < l.len() - 1 ==> l[i] != '\n');
}

proof fn lemma_params_lines_len(params: Seq<Seq<char>>)
    ensures
        params_lines(params).len() == 2 * params.len(),
    decreases params.len(),
{
    if params.len() > 0 {
        lemma_params_lines_len(params.drop_last());
    }
}

proof fn lemma_params_lines_index(params: Seq<Seq<char>>, i: int)
    requires
        0 <= i < params.len(),
    ensures
        params_lines(params)[2 * i] == length_line(params[i]),
        params_lines(params)[2 * i + 1] == params[i] + crlf(),
    decreases params.len(),
{
    lemma_params_lines_len(params.drop_last());
    if i < params.len() - 1 {
        lemma_params_lines_index(params.drop_last(), i);
    }
}

/// Every line of a request's frame is a well-formed transport line, as long
/// as no argument holds a newline.
proof fn lemma_request_lines_wf(params: Seq<Seq<char>>)
    requires
        forall|i: int| 0 <= i < params.len() ==> framable(#[trigger] params[i]),
    ensures
        forall|i: int|
            0 <= i < request_lines(params).len() ==> line_wf(#[trigger] request_lines(params)[i]),
{
    let lines = request_lines(params);
    lemma_params_lines_len(params);
    assert forall|i: int| 0 <= i < lines.len() implies line_wf(#[trigger] lines[i]) by {
        if i == 0 {
            lemma_dec_str_has_no_ctl(params.len());
            lemma_dec_str_digits(params.len());
            lemma_marker_line_wf(seq!['*'] + dec_str(params.len()));
            assert((seq!['*'] + dec_str(params.len())) + crlf() =~= count_line(params.len()));
        } else {
            let j = (i - 1) / 2;
            let r = (i - 1) % 2;
            assert(i - 1 == 2 * j + r);
            assert(0 <= j < params.len());
            lemma_params_lines_index(params, j);
            let p = params[j];
            if r == 0 {
                assert(lines[i] == length_line(p));
                lemma_dec_str_has_no_ctl(wire_byte_len(p));
                lemma_dec_str_digits(wire_byte_len(p));
                lemma_marker_line_wf(seq!['$'] + dec_str(wire_byte_len(p)));
                assert((seq!['$'] + dec_str(wire_byte_len(p))) + crlf() =~= length_line(p));
            } else {
                assert(lines[i] == p + crlf());
                if p.len() == 0 {
                    assert(p + crlf() =~= crlf());
                    assert(line_wf(crlf()));
                } else {
                    lemma_marker_line_wf(p);
                }
            }
        }
    }
}

proof fn lemma_count_line_parses(n: nat)
    requires
        n <= i32::MAX,
    ensures
        spec_parse_count(count_line(n)) == Some(n as i32),
{
    let head = seq!['*'] + dec_str(n);
    lemma_dec_str_digits(n);
    lemma_dec_str_has_no_ctl(n);
    assert(head[0] == '*');
    assert(head.last() == dec_str(n).last());
    lemma_trim_line_of(head);
    assert(count_line(n) =~= head + seq!['\r', '\n']);
    assert(spec_trim(count_line(n)) == head);
    assert(head.drop_first() =~= dec_str(n));
    lemma_digits_val_of_dec_str(n);
    assert(dec_str(n)[0] != '+');
}

proof fn lemma_length_line_ok(p: Seq<char>)
    requires
        wire_byte_len(p) <= i32::MAX,
    ensures
        int_line_ok(length_line(p)),
{
    let n = wire_byte_len(p);
    let head = seq!['$'] + dec_str(n);
    lemma_dec_str_digits(n);
    lemma_dec_str_has_no_ctl(n);
    assert(head[0] == '$');
    assert(head.last() == dec_str(n).last());
    lemma_trim_line_of(head);
    assert(length_line(p) =~= head + seq!['\r', '\n']);
    assert(spec_trim(length_line(p)) == head);
    assert(head.drop_first() =~= dec_str(n));
    lemma_digits_val_of_dec_str(n);
    assert(dec_str(n)[0] != '+' && dec_str(n)[0] != '-');
}

/// The round trip of one request over the line transport: its frame splits
/// back into exactly its lines; the count line parses to the argument
/// count; and the argument lines decode to exactly the arguments that were
/// encoded. This holds for every request whose arguments are framable.
pub proof fn lemma_request_round_trip(params: Seq<Seq<char>>)
    requires
        params.len() <= i32::MAX,
        forall|i: int| 0 <= i < params.len() ==> framable(#[trigger] params[i]),
    ensures
        split_lines(request_wire(params)) == request_lines(params),
        request_lines(params).len() == 1 + 2 * params.len(),
        spec_parse_count(request_lines(params)[0]) == Some(params.len() as i32),
        spec_params_of_lines(params.len() as int, request_lines(params).skip(1)) == Some(params),
{
    lemma_params_lines_len(params);
    lemma_request_lines_wf(params);
    lemma_join_request(params);
    lemma_split_join(request_lines(params));
    lemma_count_line_parses(params.len());
    let rest = request_lines(params).skip(1);
    assert(rest =~= params_lines(params));
    assert forall|i: int| 0 <= i < params.len() implies int_line_ok(#[trigger] rest[2 * i]) by {
        lemma_params_lines_index(params, i);
        lemma_length_line_ok(params[i]);
    }
    assert forall|i: int| 0 <= i < params.len() implies spec_trim(rest[2 * i + 1])
        == params[i] by {
        lemma_params_lines_index(params, i);
        lemma_trim_line_of(params[i]);
        assert(params[i] + crlf() =~= params[i] + seq!['\r', '\n']);
    }
    assert(Seq::new(params.len(), |i: int| spec_trim(rest[2 * i + 1])) =~= params);
}

} // verus!
