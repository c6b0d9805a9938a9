//! What an entry point hands back to the host: messages to send on and
//! attributes to log.

use vstd::prelude::*;

verus! {

/// A key and a value for the host's event log.
#[derive(Clone, Debug, PartialEq, Eq)]
pub struct Attribute {
    pub key: String,
    pub value: String,
}

/// An attribute as text.
pub struct AttributeView {
    pub key: Seq<char>,
    pub value: Seq<char>,
}

impl View for Attribute {
    type V = AttributeView;

    open spec fn view(&self) -> AttributeView {
        AttributeView { key: self.key@, value: self.value@ }
    }
}

/// A call that the randomness provider's proxy understands.
#[derive(Clone, Debug, PartialEq, Eq)]
pub enum ProxyExecuteMsg {
    /// Asks for the next randomness, to be delivered with `callback_id`.
    GetNextRandomness { callback_id: Option<String> },
}

/// A proxy call as text.
pub enum ProxyExecuteMsgView {
    GetNextRandomness { callback_id: Option<Seq<char>> },
}

impl View for ProxyExecuteMsg {
    type V = ProxyExecuteMsgView;

    open spec fn view(&self) -> ProxyExecuteMsgView {
        match self {
            ProxyExecuteMsg::GetNextRandomness { callback_id } => {
                ProxyExecuteMsgView::GetNextRandomness {
                    callback_id: match callback_id {
                        Some(id) => Some(id@),
                        None => None,
                    },
                }
            },
        }
    }
}

/// A message for the host to send to another contract, without funds.
#[derive(Clone, Debug, PartialEq, Eq)]
pub struct WasmExecute {
    /// Address of the contract to call.
    pub contract_addr: String,
    /// What to call it with.
    pub msg: ProxyExecuteMsg,
}

/// An outbound message as text.
pub struct WasmExecuteView {
    pub contract_addr: Seq<char>,
    pub msg: ProxyExecuteMsgView,
}

impl View for WasmExecute {
    type V = WasmExecuteView;

    open spec fn view(&self) -> WasmExecuteView {
        WasmExecuteView { contract_addr: self.contract_addr@, msg: self.msg@ }
    }
}

/// The result of a successful call.
#[derive(Clone, Debug, PartialEq, Eq)]
pub struct Response {
    /// Messages for the host to send, in order.
    pub messages: Vec<WasmExecute>,
    /// Attributes for the host's event log, in order.
    pub attributes: Vec<Attribute>,
}

/// A response as text.
pub struct ResponseView {
    pub messages: Seq<WasmExecuteView>,
    pub attributes: Seq<AttributeView>,
}

impl ResponseView {
    /// The response that holds nothing.
    pub open spec fn empty() -> ResponseView {
        ResponseView { messages: Seq::empty(), attributes: Seq::empty() }
    }

    /// This response with one more attribute at the end.
    pub open spec fn add_attribute(self, key: Seq<char>, value: Seq<char>) -> ResponseView {
        ResponseView {
            messages: self.messages,
            attributes: self.attributes.push(AttributeView { key, value }),
        }
    }

    /// This response with one more message at the end.
    pub open spec fn add_message(self, msg: WasmExecuteView) -> ResponseView {
        ResponseView { messages: self.messages.push(msg), attributes: self.attributes }
    }
}

impl View for Response {
    type V = ResponseView;

    open spec fn view(&self) -> ResponseView {
        ResponseView {
            messages: self.messages@.map_values(|m: WasmExecute| m@),
            attributes: self.attributes@.map_values(|a: Attribute| a@),
        }
    }
}

impl Response {
    /// A response that sends nothing and logs nothing.
    pub fn new() -> (response: Self)
        ensures
            response@ == ResponseView::empty(),
    {
        let response = Response { messages: Vec::new(), attributes: Vec::new() };
        assert(response@.messages =~= Seq::empty());
        assert(response@.attributes =~= Seq::empty());
        response
    }

    /// Adds an attribute to log.
    pub fn add_attribute(self, key: &str, value: String) -> (response: Self)
        ensures
            response@ == self@.add_attribute(key@, value@),
    {
        let mut response = self;
        let attribute = Attribute { key: key.to_owned(), value };
        response.attributes.push(attribute);
        assert(response@.attributes =~= self@.attributes.push(attribute@));
        response
    }

    /// Adds a message to send.
    pub fn add_message(self, msg: WasmExecute) -> (response: Self)
        ensures
            response@ == self@.add_message(msg@),
    {
        let mut response = self;
        response.messages.push(msg);
        assert(response@.messages =~= self@.messages.push(msg@));
        response
    }
}

impl Default for Response {
    fn default() -> (response: Self)
        ensures
            response@ == ResponseView::empty(),
    {
        Response::new()
    }
}

} // verus!
