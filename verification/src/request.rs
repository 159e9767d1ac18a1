use vstd::prelude::*;

use crate::api_call::{spec_call_id, spec_wire_name, ApiCall};
use crate::hex::spec_hex_char;
use crate::numtext::{spec_u64_dec, u64_to_dec};

verus! {

/// Ghost image of one positional parameter.
pub ghost enum ParamV {
    Text(Seq<char>),
    Flag(bool),
}

/// One positional JSON parameter of a request: the protocol only ever
/// sends strings and booleans.
#[derive(Debug)]
pub enum ParamValue {
    Text(String),
    Flag(bool),
}

impl View for ParamValue {
    type V = ParamV;

    open spec fn view(&self) -> ParamV {
        match self {
            ParamValue::Text(s) => ParamV::Text(s@),
            ParamValue::Flag(b) => ParamV::Flag(*b),
        }
    }
}

/// The JSON string escape of one character: quote and backslash get a
/// backslash, control characters the `\u00..` form, everything else
/// stands as it is.
pub open spec fn spec_escape_char(c: char) -> Seq<char> {
    if c == '"' {
        seq!['\\', '"']
    } else if c == '\\' {
        seq!['\\', '\\']
    } else if (c as int) < 32 {
        seq!['\\', 'u', '0', '0', spec_hex_char(((c as u8) / 16) as u8), spec_hex_char(
            ((c as u8) % 16) as u8,
        )]
    } else {
        seq![c]
    }
}

/// The JSON string escape of a run of text.
pub open spec fn spec_escape(s: Seq<char>) -> Seq<char>
    decreases s.len(),
{
    if s.len() == 0 {
        Seq::<char>::empty()
    } else {
        spec_escape(s.drop_last()) + spec_escape_char(s.last())
    }
}

/// The JSON text of one parameter.
pub open spec fn spec_param_json(p: ParamV) -> Seq<char> {
    match p {
        ParamV::Text(s) => seq!['"'] + spec_escape(s) + seq!['"'],
        ParamV::Flag(b) => if b {
            "true"@
        } else {
            "false"@
        },
    }
}

/// The JSON text of a parameter list, comma separated.
pub open spec fn spec_params_json(ps: Seq<ParamV>) -> Seq<char>
    decreases ps.len(),
{
    if ps.len() == 0 {
        Seq::<char>::empty()
    } else if ps.len() == 1 {
        spec_param_json(ps[0])
    } else {
        spec_params_json(ps.drop_last()) + seq![','] + spec_param_json(ps.last())
    }
}

/// The full serialized request object for a call and its parameters:
/// the call's id doubles as the JSON-RPC correlation id.
pub open spec fn spec_request_json(c: ApiCall, ps: Seq<ParamV>) -> Seq<char> {
    "{\"id\":"@ + spec_u64_dec(spec_call_id(c) as nat) + ",\"jsonrpc\":\"2.0\",\"method\":\""@
        + spec_escape(spec_wire_name(c)) + "\",\"params\":["@ + spec_params_json(ps) + "]}"@
}

/// Appends the JSON escape of `text` to `out`.
fn escape_into(out: &mut String, text: &str)
    ensures
        final(out)@ == old(out)@ + spec_escape(text@),
{
    let n = text.unicode_len();
    let mut i: usize = 0;
    while i < n
        invariant
            0 <= i <= n,
            n == text@.len(),
            out@ == old(out)@ + spec_escape(text@.take(i as int)),
        decreases n - i,
    {
        let c = text.get_char(i);
        let u = c as u32;
        if u == 34 {
            out.push('\\');
            out.push('"');
        } else if u == 92 {
            out.push('\\');
            out.push('\\');
        } else if u < 32 {
            out.push('\\');
            out.push('u');
            out.push('0');
            out.push('0');
            let b = u as u8;
            out.append(crate::hex::hex_digit(b / 16));
            out.append(crate::hex::hex_digit(b % 16));
        } else {
            out.push(c);
        }
        proof {
            assert(text@.take(i + 1).drop_last() =~= text@.take(i as int));
            assert(text@.take(i + 1).last() == text@[i as int]);
            assert(out@ =~= old(out)@ + spec_escape(text@.take(i + 1)));
        }
        i = i + 1;
    }
    proof {
        assert(text@.take(n as int) =~= text@);
    }
}

/// One outbound JSON-RPC request: a call plus its positional parameters.
/// Built fresh per call, immutable once built, serialized exactly once.
/// Whether the parameter count fits the call's arity is the caller's
/// contract; no check is made here.
#[derive(Debug)]
pub struct RequestEnvelope {
    pub call: ApiCall,
    pub params: Vec<ParamValue>,
}

impl View for RequestEnvelope {
    type V = (ApiCall, Seq<ParamV>);

    open spec fn view(&self) -> (ApiCall, Seq<ParamV>) {
        (self.call, self.params@.map_values(|p: ParamValue| p@))
    }
}

impl RequestEnvelope {
    /// Pure construction of a request from a call and its parameters.
    pub fn for_call(call: ApiCall, params: Vec<ParamValue>) -> (r: RequestEnvelope)
        ensures
            r.call == call,
            r.params == params,
    {
        RequestEnvelope { call, params }
    }

    /// Serializes this request as one JSON object, fields in the fixed
    /// order id, jsonrpc, method, params.
    pub fn build(&self) -> (r: String)
        ensures
            r@ == spec_request_json(self.call, self@.1),
    {
        let ghost ps: Seq<ParamV> = self@.1;
        let mut s = String::from_str("{\"id\":");
        let id_text = u64_to_dec(self.call.id() as u64);
        s.append(id_text.as_str());
        s.append(",\"jsonrpc\":\"2.0\",\"method\":\"");
        let name = self.call.method_info();
        escape_into(&mut s, name.as_str());
        s.append("\",\"params\":[");
        let ghost head: Seq<char> = s@;
        let mut i: usize = 0;
        while i < self.params.len()
            invariant
                0 <= i <= self.params@.len(),
                ps == self.params@.map_values(|p: ParamValue| p@),
                ps.len() == self.params@.len(),
                s@ == head + spec_params_json(ps.take(i as int)),
            decreases self.params@.len() - i,
        {
            if i > 0 {
                s.push(',');
            }
            match &self.params[i] {
                ParamValue::Text(t) => {
                    s.push('"');
                    escape_into(&mut s, t.as_str());
                    s.push('"');
                },
                ParamValue::Flag(b) => {
                    if *b {
                        s.append("true");
                    } else {
                        s.append("false");
                    }
                },
            }
            proof {
                assert(ps.take(i + 1).drop_last() =~= ps.take(i as int));
                assert(ps.take(i + 1).last() == ps[i as int]);
                assert(ps[i as int] == self.params@[i as int]@);
                assert(s@ =~= head + spec_params_json(ps.take(i + 1)));
            }
            i = i + 1;
        }
        s.append("]}");
        proof {
            assert(ps.take(ps.len() as int) =~= ps);
            assert(s@ =~= spec_request_json(self.call, ps));
        }
        s
    }
}

/// The wire text of a whole batch: the requests' objects in submission
/// order inside one JSON array.
pub open spec fn spec_batch_json(rs: Seq<(ApiCall, Seq<ParamV>)>) -> Seq<char>
    decreases rs.len(),
{
    if rs.len() == 0 {
        "[]"@
    } else if rs.len() == 1 {
        seq!['['] + spec_request_json(rs[0].0, rs[0].1) + seq![']']
    } else {
        spec_batch_json(rs.drop_last()).drop_last() + seq![','] + spec_request_json(
            rs.last().0,
            rs.last().1,
        ) + seq![']']
    }
}

/// Serializes an ordered group of requests as one JSON array, preserving
/// submission order; the transport answers with one raw result per entry
/// in the same order.
pub fn batch_json(reqs: &Vec<RequestEnvelope>) -> (r: String)
    ensures
        r@ == spec_batch_json(reqs@.map_values(|q: RequestEnvelope| q@)),
{
    let ghost rs: Seq<(ApiCall, Seq<ParamV>)> = reqs@.map_values(|q: RequestEnvelope| q@);
    let mut s = String::from_str("[");
    proof {
        reveal_strlit("[");
    }
    let mut i: usize = 0;
    while i < reqs.len()
        invariant
            0 <= i <= reqs@.len(),
            rs == reqs@.map_values(|q: RequestEnvelope| q@),
            rs.len() == reqs@.len(),
            i == 0 ==> s@ =~= seq!['['],
            i > 0 ==> s@ =~= spec_batch_json(rs.take(i as int)).drop_last(),
        decreases reqs@.len() - i,
    {
        if i > 0 {
            s.push(',');
        }
        let one = reqs[i].build();
        s.append(one.as_str());
        proof {
            assert(rs.take(i + 1).drop_last() =~= rs.take(i as int));
            assert(rs.take(i + 1).last() == rs[i as int]);
            assert(rs[i as int] == reqs@[i as int]@);
            if i == 0 {
                assert((seq!['['] + spec_request_json(rs[0].0, rs[0].1) + seq![']']).drop_last()
                    =~= seq!['['] + spec_request_json(rs[0].0, rs[0].1));
                assert(s@ =~= spec_batch_json(rs.take(1)).drop_last());
            } else {
                assert((spec_batch_json(rs.take(i as int)).drop_last() + seq![',']
                    + spec_request_json(rs[i as int].0, rs[i as int].1) + seq![']']).drop_last()
                    =~= spec_batch_json(rs.take(i as int)).drop_last() + seq![',']
                    + spec_request_json(rs[i as int].0, rs[i as int].1));
                assert(s@ =~= spec_batch_json(rs.take(i + 1)).drop_last());
            }
        }
        i = i + 1;
    }
    s.push(']');
    proof {
        assert(rs.take(rs.len() as int) =~= rs);
        if rs.len() == 0 {
            reveal_strlit("[]");
            assert(s@ =~= "[]"@);
        } else {
            assert(s@ =~= spec_batch_json(rs));
        }
    }
    s
}

} // verus!
