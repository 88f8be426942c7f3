//! The structured protocol response and its wire encoding: a bare status
//! byte, or a data payload behind a tag and a length byte.

use vstd::prelude::*;

verus! {

/// The terminal status of one processed message.
#[derive(Clone, Copy, PartialEq, Eq, Structural, Debug)]
pub enum ProtoResponseState {
    ResultOk,
    ResultError,
    ResultBadRequest,
    ResultData,
}

/// The wire byte of a response status.
pub open spec fn response_state_u8(s: ProtoResponseState) -> u8 {
    match s {
        ProtoResponseState::ResultOk => 0x00,
        ProtoResponseState::ResultError => 0x01,
        ProtoResponseState::ResultBadRequest => 0x02,
        ProtoResponseState::ResultData => 0x03,
    }
}

impl ProtoResponseState {
    pub fn to_u8(&self) -> (b: u8)
        ensures
            b == response_state_u8(*self),
    {
        match *self {
            ProtoResponseState::ResultOk => 0x00,
            ProtoResponseState::ResultError => 0x01,
            ProtoResponseState::ResultBadRequest => 0x02,
            ProtoResponseState::ResultData => 0x03,
        }
    }
}

/// What a response means: a plain status, or a data payload.
#[verifier::ext_equal]
pub enum ResponseView {
    RespOk,
    RespError,
    RespBadRequest,
    RespData(Seq<u8>),
}

/// The bytes a response puts on the wire.
pub open spec fn response_bytes(v: ResponseView) -> Seq<u8> {
    match v {
        ResponseView::RespOk => seq![0x00u8],
        ResponseView::RespError => seq![0x01u8],
        ResponseView::RespBadRequest => seq![0x02u8],
        ResponseView::RespData(payload) => seq![0x03u8, payload.len() as u8] + payload,
    }
}

/// A response under construction: a status, and the payload gathered so far.
pub struct ProtoResponse {
    result: Vec<u8>,
    state_only: bool,
    state: ProtoResponseState,
}

impl View for ProtoResponse {
    type V = ResponseView;

    closed spec fn view(&self) -> ResponseView {
        match self.state {
            ProtoResponseState::ResultOk => ResponseView::RespOk,
            ProtoResponseState::ResultError => ResponseView::RespError,
            ProtoResponseState::ResultBadRequest => ResponseView::RespBadRequest,
            ProtoResponseState::ResultData => ResponseView::RespData(self.result@),
        }
    }
}

impl ProtoResponse {
    /// The data payload gathered so far.
    pub closed spec fn payload(&self) -> Seq<u8> {
        self.result@
    }

    /// The status this response carries.
    pub closed spec fn resp_state(&self) -> ProtoResponseState {
        self.state
    }

    /// Whether the response carries a data payload.
    pub fn is_data(&self) -> (b: bool)
        ensures
            b == (self.resp_state() == ProtoResponseState::ResultData),
    {
        match self.state {
            ProtoResponseState::ResultData => true,
            _ => false,
        }
    }

    /// A payload is carried exactly by the data status.
    pub closed spec fn wf(&self) -> bool {
        &&& (self.state == ProtoResponseState::ResultData) == !self.state_only
        &&& (self.state_only ==> self.result@.len() == 0)
    }

    /// A bare status response with no payload.
    pub fn from_state(state: ProtoResponseState) -> (r: ProtoResponse)
        requires
            state != ProtoResponseState::ResultData,
        ensures
            r.wf(),
            r.resp_state() == state,
            r.payload() == Seq::<u8>::empty(),
            r@ == match state {
                ProtoResponseState::ResultOk => ResponseView::RespOk,
                ProtoResponseState::ResultError => ResponseView::RespError,
                _ => ResponseView::RespBadRequest,
            },
    {
        let r = ProtoResponse { result: Vec::new(), state_only: true, state };
        proof {
            assert(r.payload() =~= Seq::<u8>::empty());
        }
        r
    }

    /// Appends payload bytes and switches the response to the data status.
    pub fn add_response(&mut self, response: Vec<u8>)
        ensures
            final(self).wf(),
            final(self).resp_state() == ProtoResponseState::ResultData,
            final(self).payload() == old(self).payload() + response@,
            final(self)@ == ResponseView::RespData(old(self).payload() + response@),
    {
        self.state = ProtoResponseState::ResultData;
        self.state_only = false;
        let mut tail = response;
        self.result.append(&mut tail);
    }

    /// The status byte alone, without any payload.
    pub fn to_u8(&self) -> (b: u8)
        ensures
            b == response_state_u8(self.resp_state()),
    {
        self.state.to_u8()
    }

    /// The payload length, for callers that must bound it before encoding.
    pub fn payload_len(&self) -> (n: usize)
        ensures
            n == self.payload().len(),
    {
        self.result.len()
    }

    /// Encodes the response for the wire: one status byte, or the data tag,
    /// a length byte and the payload. The payload must fit its length byte.
    pub fn to_u8_vec(&self) -> (r: Vec<u8>)
        requires
            self.wf(),
            self.payload().len() <= 255,
        ensures
            r@ == response_bytes(self@),
    {
        if self.state_only {
            let mut r: Vec<u8> = Vec::new();
            r.push(self.state.to_u8());
            proof {
                assert(r@ =~= response_bytes(self@));
            }
            r
        } else {
            let mut r: Vec<u8> = Vec::new();
            r.push(0x03);
            r.push(self.result.len() as u8);
            let ghost head = r@;
            let mut i: usize = 0;
            while i < self.result.len()
                invariant
                    i <= self.result@.len(),
                    r@ == head + self.result@.take(i as int),
                decreases self.result@.len() - i,
            {
                r.push(self.result[i]);
                proof {
                    assert(self.result@.take(i + 1) =~= self.result@.take(i as int).push(
                        self.result@[i as int],
                    ));
                    assert(r@ =~= head + self.result@.take(i + 1));
                }
                i += 1;
            }
            proof {
                assert(self.result@.take(self.result@.len() as int) =~= self.result@);
                assert(r@ =~= response_bytes(self@));
            }
            r
        }
    }
}

} // verus!
