//! Who a node is: its peer id, out of what it answers to `GET /bootstrap`.

use crate::harness::TestNode;
use crate::json;
use crate::text;
use serde_json::Value;
use vstd::prelude::*;
use vstd::string::*;

verus! {

/// Why an answer names no peer.
#[derive(Debug)]
pub enum PeerIdError {
    /// The answer is no JSON document, for this reason.
    NotJson(String),
    /// The document, which is shown here, has no text at `peers[0]`.
    NoPeer(String),
}

impl PeerIdError {
    /// The message of the error.
    pub open spec fn shown(self) -> Seq<char> {
        match self {
            PeerIdError::NotJson(_) => "error decoding response body"@,
            PeerIdError::NoPeer(document) => "no peers[0] in /bootstrap: "@ + document@,
        }
    }

    /// The message of the error.
    pub fn message(&self) -> (r: String)
        ensures
            r@ == self.shown(),
    {
        match self {
            PeerIdError::NotJson(_) => "error decoding response body".to_owned(),
            PeerIdError::NoPeer(document) => "no peers[0] in /bootstrap: ".to_owned().concat(
                document.as_str(),
            ),
        }
    }

    /// What lies beneath the error, where something does: the parser's reason.
    pub fn cause(&self) -> (r: Option<&str>)
        ensures
            match *self {
                PeerIdError::NotJson(why) => r matches Some(s) && s@ == why@,
                PeerIdError::NoPeer(_) => r is None,
            },
    {
        match self {
            PeerIdError::NotJson(why) => Some(why.as_str()),
            PeerIdError::NoPeer(_) => None,
        }
    }
}

/// The address of `GET /bootstrap` of a node.
pub open spec fn bootstrap_address(api: Seq<char>) -> Seq<char> {
    api + "/bootstrap"@
}

/// The address at `peers[0]` of a document, where a text stands there.
pub open spec fn first_peer(document: json::Tree) -> Option<Seq<char>> {
    document.member("peers"@).item(0).text()
}

/// The address of `GET /bootstrap` of a node.
pub fn bootstrap_url(api: &str) -> (r: String)
    ensures
        r@ == api@ + "/bootstrap"@,
        r@ == bootstrap_address(api@),
{
    api.to_owned().concat("/bootstrap")
}

/// What an address at `peers[0]` makes of an answer that is shown as `document`: the part behind
/// the last `/p2p/` is the peer id, and without an address there is none.
pub open spec fn identifies(
    address: Option<Seq<char>>,
    document: Seq<char>,
    r: Result<String, PeerIdError>,
) -> bool {
    match address {
        Some(a) => r matches Ok(id) && text::follows_last(a, "/p2p/"@, id@),
        None => r matches Err(PeerIdError::NoPeer(shown)) && shown@ == document,
    }
}

/// Takes the peer id out of an address, given how the document it comes from is shown.
pub fn id_of_address(address: Option<&str>, document: String) -> (r: Result<String, PeerIdError>)
    ensures
        identifies(
            match address {
                Some(a) => Some(a@),
                None => None,
            },
            document@,
            r,
        ),
{
    match address {
        Some(a) => Ok(text::after_last(a, "/p2p/")),
        None => Err(PeerIdError::NoPeer(document)),
    }
}

/// Finds the peer id of a node in the document that it answers to `GET /bootstrap`, of the shape
/// `{"peers":["/p2p/<id>"]}`.
pub fn peer_id_in(document: &Value) -> (r: Result<String, PeerIdError>)
    ensures
        identifies(
            json::tree(*document).member("peers"@).item(0).text(),
            json::shown(json::tree(*document)),
            r,
        ),
        identifies(
            first_peer(json::tree(*document)),
            json::shown(json::tree(*document)),
            r,
        ),
{
    let peers: &Value = json::member(document, "peers");
    let first: &Value = json::item(peers, 0);
    id_of_address(json::as_text(first), json::show(document))
}

/// Reads the peer id of a node out of the text that it answers to `GET /bootstrap`.
pub fn peer_id(body: &[u8]) -> (r: Result<String, PeerIdError>)
    ensures
        match json::parsed(body@) {
            Ok(document) => identifies(
                document.member("peers"@).item(0).text(),
                json::shown(document),
                r,
            ),
            Err(why) => r matches Err(PeerIdError::NotJson(reason)) && reason@ == why,
        },
        json::parsed(body@) matches Ok(document) ==> identifies(
            first_peer(document),
            json::shown(document),
            r,
        ),
{
    match json::parse(body) {
        Ok(document) => peer_id_in(&document),
        Err(why) => Err(PeerIdError::NotJson(why)),
    }
}

/// The peer id that is read out of an address is the one that the address was made with, as long
/// as no further `/p2p/` begins in it.
pub proof fn law_dial_address_names_the_peer(node: TestNode, id: Seq<char>)
    requires
        forall|b: int| b > 0 ==> !text::stands_at("/p2p/"@ + node.peer_id@, "/p2p/"@, b),
    ensures
        text::follows_last(node.address(), "/p2p/"@, id) == (id == node.peer_id@),
{
    reveal_strlit("/p2p/");
    let mark = "/p2p/"@;
    let head = "/ip4/127.0.0.1/tcp/"@ + text::digits(node.p2p_port as nat);
    let tail = mark + node.peer_id@;
    let whole = node.address();
    let at = head.len() as int;
    assert(whole =~= head + tail);
    assert(whole.subrange(at, at + mark.len()) =~= mark);
    assert(text::stands_at(whole, mark, at));
    assert(whole.subrange(at + mark.len(), whole.len() as int) =~= node.peer_id@);
    assert forall|b: int| at < b implies !text::stands_at(whole, mark, b) by {
        if text::stands_at(whole, mark, b) {
            assert(tail.subrange(b - at, b - at + mark.len()) =~= whole.subrange(
                b,
                b + mark.len(),
            ));
            assert(text::stands_at(tail, mark, b - at));
        }
    }
}

/// A node is asked at `/bootstrap` of its API.
pub proof fn law_bootstrap_is_asked_of_the_node(api: Seq<char>)
    ensures
        api.is_prefix_of(bootstrap_address(api)),
        bootstrap_address(api).skip(api.len() as int) == "/bootstrap"@,
{
    assert(api =~= bootstrap_address(api).subrange(0, api.len() as int));
    assert(bootstrap_address(api).skip(api.len() as int) =~= "/bootstrap"@);
}

/// The address of a node is the first of the `peers` of its answer, whatever else is in it, and
/// there is none where `peers` is no array, is empty, or begins with anything but a text.
pub proof fn law_first_peer(document: json::Tree)
    ensures
        first_peer(document) is Some <==> {
            &&& document is Object
            &&& document->Object_0.contains_key("peers"@)
            &&& document->Object_0["peers"@] is Array
            &&& document->Object_0["peers"@]->Array_0.len() > 0
            &&& document->Object_0["peers"@]->Array_0[0] is Text
        },
        first_peer(document) is Some ==> first_peer(document)->0
            == document->Object_0["peers"@]->Array_0[0]->Text_0,
{
}

/// The peer id is what stands behind the last `/p2p/` of an address, as long as none begins in it,
/// and an address without one is the peer id itself; without an address there is no peer id, and the
/// error shows the whole document.
pub proof fn law_peer_id_of_an_address(
    head: Seq<char>,
    id: Seq<char>,
    document: Seq<char>,
    r: Result<String, PeerIdError>,
)
    ensures
        (forall|b: int| b > 0 ==> !text::stands_at("/p2p/"@ + id, "/p2p/"@, b)) ==> identifies(
            Some(head + "/p2p/"@ + id),
            document,
            r,
        ) == (r is Ok && r->Ok_0@ == id),
        (forall|b: int| !text::stands_at(head, "/p2p/"@, b)) ==> identifies(
            Some(head),
            document,
            r,
        ) == (r is Ok && r->Ok_0@ == head),
        identifies(None, document, r) <==> r is Err && r->Err_0 is NoPeer && r->Err_0->NoPeer_0@
            == document,
{
    if r is Ok {
        text::law_part_behind_the_last_mark(head, "/p2p/"@, id, r->Ok_0@);
    }
}

/// The message of an error says whether the answer could be read at all, and shows it where it
/// could.
pub proof fn law_messages_of_errors(e: PeerIdError)
    ensures
        e is NotJson ==> e.shown() == "error decoding response body"@,
        e is NoPeer ==> "no peers[0] in /bootstrap: "@.is_prefix_of(e.shown()) && e.shown().skip(
            "no peers[0] in /bootstrap: "@.len() as int,
        ) == e->NoPeer_0@,
{
    if e is NoPeer {
        let said = "no peers[0] in /bootstrap: "@;
        assert(said =~= e.shown().subrange(0, said.len() as int));
        assert(e.shown().skip(said.len() as int) =~= e->NoPeer_0@);
    }
}

} // verus!
