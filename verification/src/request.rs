//! The request parser: a raw buffer, read once and at most 4096 bytes
//! long, becomes a structured request. Trailing padding is trimmed; the
//! first two whitespace-separated tokens are the method and the path;
//! every later line with exactly one `:` is a header, both sides trimmed;
//! the last line is the body, verbatim. A single read means a single body
//! line: multi-line bodies are not supported.

use vstd::prelude::*;
use crate::router::{skip_ws, spec_req_parts, token_end};
use crate::text::{
    chars_to_string, lines_of, spec_lines, spec_split_full, spec_trim_ws, split_full, sub_string,
    to_chars, trim_end_pad, trim_ws,
};
use vstd::string::StringExecFns;

verus! {

/// How many bytes one read of a connection hands the parser, at most.
pub const READ_BUFFER_BYTES: usize = 4096;

/// A parsed request: method, path, header entries in their order, and the
/// body line.
pub struct ParsedRequest {
    pub method: String,
    pub path: String,
    pub headers: Vec<(String, String)>,
    pub body: String,
}

/// The header entry a line yields: a line with exactly one `:` names a
/// header, both sides trimmed; any other line names none.
pub open spec fn spec_header_entry(line: Seq<char>) -> Option<(Seq<char>, Seq<char>)> {
    let parts = spec_split_full(line, ':');
    if parts.len() == 2 {
        Some((spec_trim_ws(parts[0]), spec_trim_ws(parts[1])))
    } else {
        None
    }
}

/// The header entries of a sequence of lines, in order.
pub open spec fn spec_headers_of(lns: Seq<Seq<char>>) -> Seq<(Seq<char>, Seq<char>)>
    decreases lns.len(),
{
    if lns.len() == 0 {
        Seq::<(Seq<char>, Seq<char>)>::empty()
    } else {
        let rest = spec_headers_of(lns.drop_last());
        match spec_header_entry(lns.last()) {
            Some(e) => rest.push(e),
            None => rest,
        }
    }
}

impl ParsedRequest {
    /// Parses one raw buffer. The request is malformed exactly when the
    /// trimmed buffer misses a method or a path; otherwise the headers
    /// are the entries of the lines after the first, and the body is the
    /// last line.
    pub fn parse(raw: &str) -> (r: Result<ParsedRequest, String>)
        ensures
            (r is Ok) == (spec_req_parts(raw@) is Some),
            r matches Ok(req) ==> (spec_req_parts(raw@) matches Some(p) ==> {
                &&& req.method@ == p.0
                &&& req.path@ == p.1
                &&& req.headers@.map_values(|h: (String, String)| (h.0@, h.1@)) == spec_headers_of(
                    spec_lines(p.2).drop_first(),
                )
                &&& req.body@ == spec_lines(p.2).last()
                &&& spec_lines(p.2).len() >= 1
            }),
    {
        let chars = to_chars(raw);
        let trimmed = trim_end_pad(chars.as_slice());
        if trimmed.len() == 0 {
            return Err(String::from_str("no data"));
        }
        let ms = skip_ws(trimmed.as_slice(), 0);
        if ms >= trimmed.len() {
            return Err(String::from_str("http method not found"));
        }
        let me = token_end(trimmed.as_slice(), ms);
        let ps = skip_ws(trimmed.as_slice(), me);
        if ps >= trimmed.len() {
            return Err(String::from_str("http path not found"));
        }
        let pe = token_end(trimmed.as_slice(), ps);
        let method = sub_string(trimmed.as_slice(), ms, me);
        let path = sub_string(trimmed.as_slice(), ps, pe);
        let lns = lines_of(trimmed.as_slice());
        let ghost lviews = lns@.map_values(|p: Vec<char>| p@);
        proof {
            lemma_lines_nonempty(trimmed@);
            assert(lviews.len() == spec_lines(trimmed@).len());
        }
        let body = chars_to_string(lns[lns.len() - 1].as_slice());
        let mut headers: Vec<(String, String)> = Vec::new();
        let n = lns.len();
        let mut i: usize = 1;
        proof {
            assert(lviews.drop_first().subrange(0, 0) =~= Seq::<Seq<char>>::empty());
            assert(headers@.map_values(|h: (String, String)| (h.0@, h.1@)) =~= spec_headers_of(
                lviews.drop_first().subrange(0, 0),
            ));
        }
        while i < n
            invariant
                1 <= i <= n,
                n == lns@.len(),
                n >= 1,
                lviews == lns@.map_values(|p: Vec<char>| p@),
                headers@.map_values(|h: (String, String)| (h.0@, h.1@)) == spec_headers_of(
                    lviews.drop_first().subrange(0, i - 1),
                ),
            decreases n - i,
        {
            let ghost pre = lviews.drop_first().subrange(0, i - 1);
            let ghost post = lviews.drop_first().subrange(0, i as int);
            proof {
                assert(post.drop_last() =~= pre);
                assert(lviews.drop_first()[i - 1] == lviews[i as int]);
                assert(post.last() == lviews[i as int]);
            }
            let parts = split_full(lns[i].as_slice(), ':');
            if parts.len() == 2 {
                let name = trim_ws(parts[0].as_slice());
                let value = trim_ws(parts[1].as_slice());
                proof {
                    let f = |p: Vec<char>| p@;
                    assert(parts@.map_values(f)[0] == parts@[0]@);
                    assert(parts@.map_values(f)[1] == parts@[1]@);
                }
                headers.push((chars_to_string(name.as_slice()), chars_to_string(value.as_slice())));
                proof {
                    assert(headers@.map_values(|h: (String, String)| (h.0@, h.1@)) =~= spec_headers_of(
                        pre,
                    ).push(spec_header_entry(lviews[i as int])->Some_0));
                }
            } else {
                proof {
                    assert(spec_header_entry(lviews[i as int]) is None);
                }
            }
            i = i + 1;
        }
        proof {
            assert(lviews.drop_first().subrange(0, n - 1) =~= lviews.drop_first());
        }
        Ok(ParsedRequest { method, path, headers, body })
    }
}

/// A non-empty text has at least one line, and its last line is last in
/// the line sequence.
proof fn lemma_lines_nonempty(s: Seq<char>)
    requires
        s.len() > 0,
    ensures
        spec_lines(s).len() >= 1,
{
    let parts = spec_split_full(s, '\n');
    match crate::text::spec_find(s, 0, '\n') {
        Some(i) => {
            crate::text::lemma_spec_find_bounds(s, 0, '\n');
            crate::text::lemma_split_full_len(s.subrange(i + 1, s.len() as int), '\n');
        },
        None => {
            assert(parts == seq![s]);
        },
    }
}

} // verus!
