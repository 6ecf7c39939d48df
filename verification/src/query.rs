use vstd::prelude::*;

use crate::conn::{
    decode_frame, encode_frame, spec_frame, spec_frame_len, spec_frame_payload, spec_has_frame,
    Connection,
};
use crate::errors::Error;
use crate::json::{view_json_list, Json, JsonV};
use vstd::slice::{slice_subrange, slice_to_vec};

verus! {

pub struct Query;

/// The query envelope `[qt, term?, opts?]` as a JSON value.
pub open spec fn spec_query_env(qt: nat, query: Option<JsonV>, options: Option<JsonV>) -> JsonV {
    let elems = seq![JsonV::UInt(qt)] + (match query {
        Some(q) => seq![q],
        None => Seq::empty(),
    }) + (match options {
        Some(o) => seq![o],
        None => Seq::empty(),
    });
    JsonV::Arr(elems)
}

impl Query {
    /// Wraps a term and optional global options into the top-level
    /// query envelope.
    pub fn wrap(query_type: u64, query: Option<Json>, options: Option<Json>) -> (r: Json)
        ensures
            r@ == spec_query_env(
                query_type as nat,
                match query {
                    Some(q) => Some(q@),
                    None => None,
                },
                match options {
                    Some(o) => Some(o@),
                    None => None,
                },
            ),
    {
        let ghost q_v: Option<JsonV> = match &query {
            Some(q) => Some(q@),
            None => None,
        };
        let ghost o_v: Option<JsonV> = match &options {
            Some(o) => Some(o@),
            None => None,
        };
        let mut elems: Vec<Json> = Vec::new();
        elems.push(Json::UInt(query_type));
        if let Some(q) = query {
            elems.push(q);
        }
        if let Some(o) = options {
            elems.push(o);
        }
        let r = Json::Arr(elems);
        proof {
            crate::json::lemma_view_json_list(elems@);
            let expected = (seq![JsonV::UInt(query_type as nat)] + (match q_v {
                Some(q) => seq![q],
                None => Seq::<JsonV>::empty(),
            }) + (match o_v {
                Some(o) => seq![o],
                None => Seq::<JsonV>::empty(),
            }));
            match (q_v, o_v) {
                (Some(q), Some(o)) => {
                    assert(elems@.len() == 3);
                    assert(elems@[1]@ == q);
                    assert(elems@[2]@ == o);
                },
                (Some(q), None) => {
                    assert(elems@.len() == 2);
                    assert(elems@[1]@ == q);
                },
                (None, Some(o)) => {
                    assert(elems@.len() == 2);
                    assert(elems@[1]@ == o);
                },
                (None, None) => {
                    assert(elems@.len() == 1);
                },
            }
            assert(elems@[0]@ == JsonV::UInt(query_type as nat));
            assert(view_json_list(elems@) =~= expected);
        }
        r
    }

    /// Frames the envelope bytes under the connection's current token
    /// and queues them for the wire. The token must already have been
    /// advanced for this query.
    pub fn write(query: &Vec<u8>, conn: &mut Connection) -> (r: Result<(), Error>)
        requires
            query@.len() <= u32::MAX,
        ensures
            r is Ok,
            final(conn).outgoing@ == old(conn).outgoing@ + spec_frame(old(conn).token, query@),
            final(conn).token == old(conn).token,
            final(conn).broken == old(conn).broken,
            final(conn).incoming@ == old(conn).incoming@,
    {
        let mut frame = encode_frame(conn.token, query);
        conn.outgoing.append(&mut frame);
        Ok(())
    }

    /// Consumes one response frame from the connection: the echoed
    /// token is discarded and the raw payload is returned. Anything
    /// short of a complete frame is a transport fault and breaks the
    /// connection.
    pub fn read(conn: &mut Connection) -> (r: Result<Vec<u8>, Error>)
        ensures
            spec_has_frame(old(conn).incoming@) ==> (r matches Ok(p) && p@ == spec_frame_payload(
                old(conn).incoming@,
            ) && final(conn).incoming@ == old(conn).incoming@.subrange(
                12 + spec_frame_len(old(conn).incoming@) as int,
                old(conn).incoming@.len() as int,
            ) && final(conn).broken == old(conn).broken),
            !spec_has_frame(old(conn).incoming@) ==> (r == Err::<Vec<u8>, Error>(Error::Io)
                && final(conn).broken && final(conn).incoming@ == old(conn).incoming@),
            final(conn).token == old(conn).token,
            final(conn).outgoing@ == old(conn).outgoing@,
    {
        match decode_frame(&conn.incoming) {
            None => {
                conn.broken = true;
                Err(Error::Io)
            },
            Some((_token, payload)) => {
                let total = conn.incoming.len();
                proof {
                    assert(spec_has_frame(old(conn).incoming@));
                    assert(payload@.len() == spec_frame_len(old(conn).incoming@));
                    assert(12 + payload@.len() <= total);
                }
                let consumed = 12 + payload.len();
                let rest = slice_to_vec(
                    slice_subrange(conn.incoming.as_slice(), consumed, conn.incoming.len()),
                );
                conn.incoming = rest;
                Ok(payload)
            },
        }
    }
}

} // verus!
