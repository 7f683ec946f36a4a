use vstd::prelude::*;
use crate::entry::{Entry, EntryModel};

verus! {

/// A name lookup scoped to one namespace. `network_id` is the namespace the
/// query addresses, and doubles as the requester's self-reported namespace
/// for permission evaluation; `requester` is the self-reported principal.
#[derive(Debug, Clone)]
pub struct QueryRequest {
    pub name: String,
    pub network_id: String,
    pub requester: String,
}

/// Mathematical model of [`QueryRequest`].
pub ghost struct QueryModel {
    pub name: Seq<char>,
    pub network_id: Seq<char>,
    pub requester: Seq<char>,
}

impl View for QueryRequest {
    type V = QueryModel;

    open spec fn view(&self) -> QueryModel {
        QueryModel { name: self.name@, network_id: self.network_id@, requester: self.requester@ }
    }
}

impl QueryRequest {
    /// Copies the request, preserving the model exactly.
    pub fn duplicate(&self) -> (r: QueryRequest)
        ensures
            r@ == self@,
    {
        QueryRequest {
            name: self.name.clone(),
            network_id: self.network_id.clone(),
            requester: self.requester.clone(),
        }
    }
}

/// One peer's full view of a namespace, offered for reconciliation.
#[derive(Debug)]
pub struct SyncData {
    pub network_id: String,
    pub entries: Vec<Entry>,
    pub timestamp: i64,
}

/// Mathematical model of [`SyncData`].
pub ghost struct SyncModel {
    pub network_id: Seq<char>,
    pub entries: Seq<EntryModel>,
    pub timestamp: int,
}

impl View for SyncData {
    type V = SyncModel;

    open spec fn view(&self) -> SyncModel {
        SyncModel {
            network_id: self.network_id@,
            entries: self.entries.deep_view(),
            timestamp: self.timestamp as int,
        }
    }
}

/// An operation addressed to the federation gateway.
#[derive(Debug)]
pub enum GatewayOp {
    Connect(String),
    Disconnect(String),
    Query(QueryRequest),
}

/// Mathematical model of [`GatewayOp`].
pub ghost enum GatewayOpModel {
    Connect(Seq<char>),
    Disconnect(Seq<char>),
    Query(QueryModel),
}

impl View for GatewayOp {
    type V = GatewayOpModel;

    open spec fn view(&self) -> GatewayOpModel {
        match self {
            GatewayOp::Connect(ns) => GatewayOpModel::Connect(ns@),
            GatewayOp::Disconnect(ns) => GatewayOpModel::Disconnect(ns@),
            GatewayOp::Query(q) => GatewayOpModel::Query(q@),
        }
    }
}

/// A protocol message as carried over the dissemination collaborator.
#[derive(Debug)]
pub enum Message {
    Register(Entry),
    Query(QueryRequest),
    Response(Entry),
    NetworkSync(SyncData),
    GatewayRequest(GatewayOp),
}

/// Mathematical model of [`Message`].
pub ghost enum MessageModel {
    Register(EntryModel),
    Query(QueryModel),
    Response(EntryModel),
    NetworkSync(SyncModel),
    GatewayRequest(GatewayOpModel),
}

impl View for Message {
    type V = MessageModel;

    open spec fn view(&self) -> MessageModel {
        match self {
            Message::Register(e) => MessageModel::Register(e@),
            Message::Query(q) => MessageModel::Query(q@),
            Message::Response(e) => MessageModel::Response(e@),
            Message::NetworkSync(s) => MessageModel::NetworkSync(s@),
            Message::GatewayRequest(op) => MessageModel::GatewayRequest(op@),
        }
    }
}

/// An outbound transmission the engine hands to the dissemination
/// collaborator: a broadcast into a namespace's gossip scope, or a unicast
/// reply to one requester.
#[derive(Debug)]
pub enum Emission {
    Broadcast { network_id: String, message: Message },
    Unicast { requester: String, message: Message },
}

/// Mathematical model of [`Emission`].
pub ghost enum EmissionModel {
    Broadcast { network_id: Seq<char>, message: MessageModel },
    Unicast { requester: Seq<char>, message: MessageModel },
}

impl View for Emission {
    type V = EmissionModel;

    open spec fn view(&self) -> EmissionModel {
        match self {
            Emission::Broadcast { network_id, message } => (EmissionModel::Broadcast {
                network_id: network_id@,
                message: message@,
            }),
            Emission::Unicast { requester, message } => (EmissionModel::Unicast {
                requester: requester@,
                message: message@,
            }),
        }
    }
}

impl DeepView for Emission {
    type V = EmissionModel;

    open spec fn deep_view(&self) -> EmissionModel {
        self.view()
    }
}

/// An event a transport or discovery collaborator feeds the engine.
#[derive(Debug)]
pub enum NetworkEvent {
    /// A decoded protocol message arriving over gossip.
    GossipMessage(Message),
    /// A newly discovered peer handle.
    PeerDiscovered(String),
    /// The peer-routing substrate refreshed; the core has nothing to do.
    RoutingUpdated,
}

/// Mathematical model of [`NetworkEvent`].
pub ghost enum NetworkEventModel {
    GossipMessage(MessageModel),
    PeerDiscovered(Seq<char>),
    RoutingUpdated,
}

impl View for NetworkEvent {
    type V = NetworkEventModel;

    open spec fn view(&self) -> NetworkEventModel {
        match self {
            NetworkEvent::GossipMessage(m) => NetworkEventModel::GossipMessage(m@),
            NetworkEvent::PeerDiscovered(p) => NetworkEventModel::PeerDiscovered(p@),
            NetworkEvent::RoutingUpdated => NetworkEventModel::RoutingUpdated,
        }
    }
}

} // verus!
