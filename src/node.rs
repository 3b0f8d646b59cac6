use vstd::prelude::*;
use crate::json::Json;
use crate::message::{
    Body, BodyModel, MalformedInput, Message, MessageModel, Payload, PayloadModel, decode,
    decode_message, encode, encodes, strings_view,
};

verus! {

/// A node: its own id and the cluster's members, once an `init` has set them.
#[derive(Debug, Clone, PartialEq, Eq)]
pub struct EchoNode {
    pub node_id: Option<String>,
    pub node_ids: Vec<String>,
}

pub ghost struct NodeModel {
    pub node_id: Option<Seq<char>>,
    pub node_ids: Seq<Seq<char>>,
}

impl View for EchoNode {
    type V = NodeModel;

    open spec fn view(&self) -> NodeModel {
        NodeModel {
            node_id: match self.node_id {
                Some(s) => Some(s@),
                None => None,
            },
            node_ids: strings_view(self.node_ids@),
        }
    }
}

/// The state of a node that has not been initialized.
pub open spec fn uninitialized() -> NodeModel {
    NodeModel { node_id: None, node_ids: Seq::empty() }
}

/// The payload that answers `p`: `echo_ok` with the same text for `echo`,
/// `init_ok` for `init`, none for the acknowledgements.
pub open spec fn reply_payload(p: PayloadModel) -> Option<PayloadModel> {
    match p {
        PayloadModel::Echo { echo } => Some(PayloadModel::EchoOk { echo }),
        PayloadModel::Init { .. } => Some(PayloadModel::InitOk),
        _ => None,
    }
}

/// The reply to `input`, if it gets one: the envelope reversed, no id of its
/// own, and `in_reply_to` set to the input's id.
pub open spec fn reply_to(input: MessageModel) -> Option<MessageModel> {
    match reply_payload(input.body.payload) {
        Some(p) => Some(
            MessageModel {
                src: input.dst,
                dst: input.src,
                body: BodyModel { id: None, in_reply_to: input.body.id, payload: p },
            },
        ),
        None => None,
    }
}

/// The state after handling `input`: an `init` sets the id and the members,
/// any other message leaves the state as it was.
pub open spec fn next_state(s: NodeModel, input: MessageModel) -> NodeModel {
    match input.body.payload {
        PayloadModel::Init { node_id, node_ids } => NodeModel { node_id: Some(node_id), node_ids },
        _ => s,
    }
}

impl EchoNode {
    /// A node that has not been initialized.
    pub fn new() -> (r: EchoNode)
        ensures
            r@ == uninitialized(),
    {
        let r = EchoNode { node_id: None, node_ids: Vec::new() };
        assert(r@.node_ids =~= Seq::<Seq<char>>::empty());
        r
    }

    /// Whether an `init` has set the node's id.
    pub fn is_initialized(&self) -> (r: bool)
        ensures
            r == self@.node_id is Some,
    {
        self.node_id.is_some()
    }

    /// Handles one message and returns the reply, if it gets one.
    pub fn handle(&mut self, input: Message) -> (r: Option<Message>)
        ensures
            final(self)@ == next_state(old(self)@, input@),
            match r {
                Some(m) => reply_to(input@) == Some(m@),
                None => reply_to(input@) is None,
            },
    {
        let Message { src, dst, body } = input;
        let Body { id, in_reply_to: _, payload } = body;
        let reply = match payload {
            Payload::Echo { echo } => Payload::EchoOk { echo },
            Payload::Init { node_id, node_ids } => {
                self.node_id = Some(node_id);
                self.node_ids = node_ids;
                Payload::InitOk
            },
            Payload::EchoOk { .. } => return None,
            Payload::InitOk => return None,
        };
        Some(Message { src: dst, dst: src, body: Body { id: None, in_reply_to: id, payload: reply } })
    }

    /// Handles one message and returns the wire form of the reply, if it gets one.
    pub fn step(&mut self, input: Message) -> (r: Option<Json>)
        ensures
            final(self)@ == next_state(old(self)@, input@),
            match r {
                Some(j) => reply_to(input@) matches Some(m) && encodes(j, m),
                None => reply_to(input@) is None,
            },
    {
        match self.handle(input) {
            Some(reply) => Some(encode(&reply)),
            None => None,
        }
    }

    /// Reads one input value, handles it, and returns the wire form of the
    /// reply, if it gets one. A value that is not a message is refused and
    /// leaves the node as it was.
    pub fn process(&mut self, line: &Json) -> (r: Result<Option<Json>, MalformedInput>)
        ensures
            match decode_message(*line) {
                None => r is Err && final(self)@ == old(self)@,
                Some(input) => {
                    &&& r matches Ok(out)
                    &&& final(self)@ == next_state(old(self)@, input)
                    &&& match out {
                        Some(j) => reply_to(input) matches Some(m) && encodes(j, m),
                        None => reply_to(input) is None,
                    }
                },
            },
    {
        let input = decode(line)?;
        Ok(self.step(input))
    }
}

/// An echo is answered by an `echo_ok` that carries exactly the same text.
pub proof fn lemma_echo_identity(input: MessageModel)
    requires
        input.body.payload is Echo,
    ensures
        reply_to(input) matches Some(r) && r.body.payload == (PayloadModel::EchoOk {
            echo: input.body.payload->Echo_echo,
        }),
{
}

/// Every reply is correlated with its request: its `in_reply_to` is the
/// request's id, and absent when the request had none.
pub proof fn lemma_correlation(input: MessageModel)
    ensures
        reply_to(input) matches Some(r) ==> r.body.in_reply_to == input.body.id,
        input.body.id matches Some(n) ==> (reply_to(input) matches Some(r)
            ==> r.body.in_reply_to == Some(n)),
        input.body.id is None ==> (reply_to(input) matches Some(r) ==> r.body.in_reply_to is None),
{
}

/// Every reply goes back where its request came from: the envelope is swapped.
pub proof fn lemma_envelope_swap(input: MessageModel)
    ensures
        reply_to(input) matches Some(r) ==> r.src == input.dst && r.dst == input.src,
{
}

/// Acknowledgements (`echo_ok`, `init_ok`) get no reply and leave the state alone.
pub proof fn lemma_acknowledgements_silent(s: NodeModel, input: MessageModel)
    requires
        input.body.payload is EchoOk || input.body.payload is InitOk,
    ensures
        reply_to(input) is None,
        next_state(s, input) == s,
{
}

} // verus!
