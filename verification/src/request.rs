//! Decoding of requests. A request arrives as a count line (`*<N>`) and then,
//! for each argument, a length line (`$<len>`) and the argument's own line.
//! The caller reads the raw lines; everything from lines to a `Request` is
//! decided here.

use crate::num::{all_dec_digits, digits_val, parse_u64};
use crate::text::{spec_trim, trim_line};
use vstd::prelude::*;

verus! {

/// One decoded request: the command name and its arguments, in order.
#[derive(Debug)]
pub struct Request {
    pub parameter_count: i32,
    pub parameters: Vec<String>,
}

impl Request {
    /// The recorded count agrees with the arguments actually held.
    pub open spec fn wf(&self) -> bool {
        self.parameter_count as int == self.parameters@.len()
    }

    /// The arguments as plain character sequences.
    pub open spec fn params(&self) -> Seq<Seq<char>> {
        self.parameters.deep_view()
    }
}

/// A malformed frame: the decode of the current request is abandoned.
#[derive(Debug, PartialEq, Eq, Structural)]
pub struct ProtocolError;

/// What the count line yields: after trimming, a marker byte is skipped and
/// the rest must be a non-negative integer (an optional leading `+` is
/// accepted, as integer parsing accepts it).
pub open spec fn spec_parse_count(line: Seq<char>) -> Option<i32> {
    let t = spec_trim(line);
    if t.len() == 0 {
        None
    } else {
        let body = t.drop_first();
        let digits = if body.len() > 0 && body[0] == '+' {
            body.drop_first()
        } else {
            body
        };
        if digits.len() > 0 && all_dec_digits(digits) && digits_val(digits) <= i32::MAX {
            Some(digits_val(digits) as i32)
        } else {
            None
        }
    }
}

/// Whether a length line is acceptable: after trimming and skipping the
/// marker byte, the rest parses as an integer (the value itself is never
/// checked against the argument that follows, and a sign is accepted).
pub open spec fn int_line_ok(line: Seq<char>) -> bool {
    let t = spec_trim(line);
    t.len() > 0 && {
        let body = t.drop_first();
        let signed = body.len() > 0 && (body[0] == '+' || body[0] == '-');
        let digits = if signed {
            body.drop_first()
        } else {
            body
        };
        let bound = if body.len() > 0 && body[0] == '-' {
            0x8000_0000u64 as int
        } else {
            i32::MAX as int
        };
        digits.len() > 0 && all_dec_digits(digits) && digits_val(digits) <= bound
    }
}

/// Parses the count line that opens a request.
pub fn parse_count_line(line: &str) -> (r: Result<i32, ProtocolError>)
    ensures
        match r {
            Ok(n) => spec_parse_count(line@) == Some(n) && n >= 0,
            Err(_) => spec_parse_count(line@) is None,
        },
{
    let t = trim_line(line);
    let t_len = t.as_str().unicode_len();
    if t_len == 0 {
        return Err(ProtocolError);
    }
    let body = t.as_str().substring_char(1, t_len);
    assert(body@ =~= spec_trim(line@).drop_first());
    let body_len = t_len - 1;
    let digits = if body_len > 0 && body.get_char(0) == '+' {
        let d = body.substring_char(1, body_len);
        assert(d@ =~= body@.drop_first());
        d
    } else {
        body
    };
    match parse_u64(digits) {
        Some(v) => {
            if v <= 0x7fff_ffff {
                Ok(v as i32)
            } else {
                Err(ProtocolError)
            }
        }
        None => Err(ProtocolError),
    }
}

/// Checks a length line.
pub fn check_int_line(line: &str) -> (r: bool)
    ensures
        r == int_line_ok(line@),
{
    let t = trim_line(line);
    let t_len = t.as_str().unicode_len();
    if t_len == 0 {
        return false;
    }
    let body = t.as_str().substring_char(1, t_len);
    assert(body@ =~= spec_trim(line@).drop_first());
    let body_len = t_len - 1;
    let mut negative = false;
    let digits = if body_len > 0 && (body.get_char(0) == '+' || body.get_char(0) == '-') {
        negative = body.get_char(0) == '-';
        let d = body.substring_char(1, body_len);
        assert(d@ =~= body@.drop_first());
        d
    } else {
        body
    };
    match parse_u64(digits) {
        Some(v) => {
            if negative {
                v <= 0x8000_0000
            } else {
                v <= 0x7fff_ffff
            }
        }
        None => false,
    }
}

/// What a request's argument lines yield, given the already-parsed count:
/// the arguments, each the trim of its own line, provided every length line
/// is acceptable and the line count matches.
pub open spec fn spec_params_of_lines(count: int, lines: Seq<Seq<char>>) -> Option<Seq<Seq<char>>> {
    if count >= 0 && lines.len() == 2 * count && (forall|i: int|
        0 <= i < count ==> int_line_ok(#[trigger] lines[2 * i])) {
        Some(Seq::new(count as nat, |i: int| spec_trim(lines[2 * i + 1])))
    } else {
        None
    }
}

/// Assembles a request from the `2 * count` lines that follow its count
/// line: length line and argument line, alternating.
pub fn request_from_lines(count: i32, lines: &Vec<String>) -> (r: Result<Request, ProtocolError>)
    requires
        count >= 0,
    ensures
        match r {
            Ok(req) => req.wf() && req.parameter_count == count && spec_params_of_lines(
                count as int,
                lines.deep_view(),
            ) == Some(req.params()),
            Err(_) => spec_params_of_lines(count as int, lines.deep_view()) is None,
        },
{
    let n = count as usize;
    if lines.len() != 2 * n {
        return Err(ProtocolError);
    }
    let mut parameters: Vec<String> = Vec::new();
    let mut i: usize = 0;
    while i < n
        invariant
            0 <= i <= n == count as int,
            lines@.len() == 2 * n,
            lines.deep_view().len() == 2 * n,
            forall|j: int| 0 <= j < 2 * n ==> lines.deep_view()[j] == lines@[j]@,
            forall|j: int| 0 <= j < i ==> int_line_ok(#[trigger] lines.deep_view()[2 * j]),
            parameters@.len() == i,
            parameters.deep_view() =~= Seq::new(
                i as nat,
                |j: int| spec_trim(lines.deep_view()[2 * j + 1]),
            ),
        decreases n - i,
    {
        let ghost pre = parameters.deep_view();
        let ghost old_vec = parameters@;
        if !check_int_line(lines[2 * i].as_str()) {
            proof {
                let lv = lines.deep_view();
                assert(!int_line_ok(lv[2 * (i as int)]));
            }
            return Err(ProtocolError);
        }
        let param = trim_line(lines[2 * i + 1].as_str());
        parameters.push(param);
        proof {
            assert(parameters@.len() == i + 1);
            let post = parameters.deep_view();
            assert(post.len() == i + 1);
            assert forall|j: int| 0 <= j < i + 1 implies post[j] == spec_trim(
                lines.deep_view()[2 * j + 1],
            ) by {
                assert(post[j] == parameters@[j]@);
                if j < i {
                    assert(parameters@[j] == old_vec[j]);
                    assert(pre[j] == old_vec[j]@);
                    assert(pre[j] == spec_trim(lines.deep_view()[2 * j + 1]));
                } else {
                    assert(parameters@[j] == param);
                }
            }
            assert(post =~= Seq::new(
                (i + 1) as nat,
                |j: int| spec_trim(lines.deep_view()[2 * j + 1]),
            ));
        }
        i = i + 1;
    }
    let req = Request { parameter_count: count, parameters };
    assert(spec_params_of_lines(count as int, lines.deep_view()) == Some(req.params()));
    Ok(req)
}

} // verus!
