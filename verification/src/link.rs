//! The primary connection: its name and its gateway.
//!
//! NetworkManager hands out each answer under the object that the one before
//! it named. A step is what to read next, or the result.

use crate::text::{same_text, view_of};
use vstd::prelude::*;

verus! {

/// What to read next on the way to the gateway, or the gateway.
#[derive(Debug, PartialEq, Eq)]
pub enum GatewayStep<S> {
    /// The path of the primary connection.
    ReadPrimary,
    /// The path of this connection's IPv4 configuration.
    ReadIp4Config { connection: S },
    /// The gateway of this IPv4 configuration.
    ReadGateway { config: S },
    /// The address of the gateway, where there is one.
    Done(Option<S>),
}

/// What to read next on the way to the connection's name, or the name.
#[derive(Debug, PartialEq, Eq)]
pub enum NameStep<S> {
    /// The path of the primary connection.
    ReadPrimary,
    /// The name of this connection.
    ReadId { connection: S },
    /// The name, where there is one.
    Done(Option<S>),
}

impl View for GatewayStep<String> {
    type V = GatewayStep<Seq<char>>;

    open spec fn view(&self) -> GatewayStep<Seq<char>> {
        match self {
            GatewayStep::ReadPrimary => GatewayStep::ReadPrimary,
            GatewayStep::ReadIp4Config { connection } => GatewayStep::ReadIp4Config {
                connection: connection@,
            },
            GatewayStep::ReadGateway { config } => GatewayStep::ReadGateway { config: config@ },
            GatewayStep::Done(gateway) => GatewayStep::Done(view_of(*gateway)),
        }
    }
}

impl View for NameStep<String> {
    type V = NameStep<Seq<char>>;

    open spec fn view(&self) -> NameStep<Seq<char>> {
        match self {
            NameStep::ReadPrimary => NameStep::ReadPrimary,
            NameStep::ReadId { connection } => NameStep::ReadId { connection: connection@ },
            NameStep::Done(name) => NameStep::Done(view_of(*name)),
        }
    }
}

/// Whether a path leads to an object. NetworkManager gives `/` for none.
pub open spec fn leads_on(path: Option<Seq<char>>) -> bool {
    path matches Some(p) && p != "/"@ && p.len() > 0
}

/// The step after a reply, where a missing reply is a failed read.
pub open spec fn next_gateway_step(
    step: GatewayStep<Seq<char>>,
    reply: Option<Seq<char>>,
) -> GatewayStep<Seq<char>> {
    match step {
        GatewayStep::ReadPrimary => if leads_on(reply) {
            GatewayStep::ReadIp4Config { connection: reply.unwrap() }
        } else {
            GatewayStep::Done(None)
        },
        GatewayStep::ReadIp4Config { .. } => if leads_on(reply) {
            GatewayStep::ReadGateway { config: reply.unwrap() }
        } else {
            GatewayStep::Done(None)
        },
        GatewayStep::ReadGateway { .. } => match reply {
            Some(address) if address.len() > 0 => GatewayStep::Done(Some(address)),
            _ => GatewayStep::Done(None),
        },
        GatewayStep::Done(_) => step,
    }
}

/// The step after a reply, where a missing reply is a failed read.
pub open spec fn next_name_step(
    step: NameStep<Seq<char>>,
    reply: Option<Seq<char>>,
) -> NameStep<Seq<char>> {
    match step {
        NameStep::ReadPrimary => match reply {
            Some(path) if path != "/"@ => NameStep::ReadId { connection: path },
            _ => NameStep::Done(None),
        },
        NameStep::ReadId { .. } => NameStep::Done(reply),
        NameStep::Done(_) => step,
    }
}

fn path_leads_on(path: &Option<String>) -> (out: bool)
    ensures
        out == leads_on(view_of(*path)),
{
    match path {
        Some(p) => !same_text(p.as_str(), "/") && !p.as_str().is_empty(),
        None => false,
    }
}

/// The next step on the way to the gateway of the primary connection.
pub fn gateway_next(step: GatewayStep<String>, reply: Option<String>) -> (out: GatewayStep<String>)
    ensures
        out@ == next_gateway_step(step@, view_of(reply)),
{
    match step {
        GatewayStep::ReadPrimary => {
            if path_leads_on(&reply) {
                match reply {
                    Some(connection) => GatewayStep::ReadIp4Config { connection },
                    None => GatewayStep::Done(None),
                }
            } else {
                GatewayStep::Done(None)
            }
        },
        GatewayStep::ReadIp4Config { .. } => {
            if path_leads_on(&reply) {
                match reply {
                    Some(config) => GatewayStep::ReadGateway { config },
                    None => GatewayStep::Done(None),
                }
            } else {
                GatewayStep::Done(None)
            }
        },
        GatewayStep::ReadGateway { .. } => match reply {
            Some(address) => {
                if address.as_str().is_empty() {
                    GatewayStep::Done(None)
                } else {
                    GatewayStep::Done(Some(address))
                }
            },
            None => GatewayStep::Done(None),
        },
        GatewayStep::Done(gateway) => GatewayStep::Done(gateway),
    }
}

/// The next step on the way to the name of the connection the machine is on.
pub fn name_next(step: NameStep<String>, reply: Option<String>) -> (out: NameStep<String>)
    ensures
        out@ == next_name_step(step@, view_of(reply)),
{
    match step {
        NameStep::ReadPrimary => match reply {
            Some(connection) => {
                if same_text(connection.as_str(), "/") {
                    NameStep::Done(None)
                } else {
                    NameStep::ReadId { connection }
                }
            },
            None => NameStep::Done(None),
        },
        NameStep::ReadId { .. } => NameStep::Done(reply),
        NameStep::Done(name) => NameStep::Done(name),
    }
}

/// A gateway is found if and only if each of the three reads led on, and it is
/// then the last reply.
pub proof fn law_gateway_found(
    primary: Option<Seq<char>>,
    config: Option<Seq<char>>,
    gateway: Option<Seq<char>>,
)
    ensures
        ({
            let first = next_gateway_step(GatewayStep::ReadPrimary, primary);
            let second = next_gateway_step(first, config);
            let third = next_gateway_step(second, gateway);
            third == GatewayStep::Done(
                if leads_on(primary) && leads_on(config) && gateway != Some(Seq::<char>::empty()) {
                    gateway
                } else {
                    None
                },
            )
        }),
{
    if gateway is Some && gateway.unwrap().len() == 0 {
        assert(gateway.unwrap() =~= Seq::<char>::empty());
    }
}

/// The name is that of the primary connection, and there is none without one.
pub proof fn law_name_found(primary: Option<Seq<char>>, id: Option<Seq<char>>)
    ensures
        ({
            let first = next_name_step(NameStep::ReadPrimary, primary);
            let second = next_name_step(first, id);
            second == NameStep::Done(
                if primary is Some && primary != Some("/"@) {
                    id
                } else {
                    None
                },
            )
        }),
{
}

/// The gateway is what the last of the three reads gave, whole, if the first
/// two gave a path each, neither empty nor `/`, and it is not empty itself.
pub proof fn law_gateway_is_the_reply(primary: Seq<char>, config: Seq<char>, gateway: Seq<char>)
    requires
        primary.len() > 0 && primary != seq!['/'],
        config.len() > 0 && config != seq!['/'],
        gateway.len() > 0,
    ensures
        next_gateway_step(GatewayStep::ReadPrimary, Some(primary)) == (GatewayStep::ReadIp4Config {
            connection: primary,
        }),
        next_gateway_step(GatewayStep::ReadIp4Config { connection: primary }, Some(config)) == (
        GatewayStep::ReadGateway { config }),
        next_gateway_step(GatewayStep::ReadGateway { config }, Some(gateway)) == GatewayStep::Done(
            Some(gateway),
        ),
{
    reveal_strlit("/");
    assert("/"@ =~= seq!['/']);
}

/// A read that failed or gave no object ends the search without a gateway, and
/// so does an empty address. What was found stays.
pub proof fn law_no_gateway(path: Seq<char>, found: Option<Seq<char>>, reply: Option<Seq<char>>)
    ensures
        next_gateway_step(GatewayStep::ReadPrimary, None) == GatewayStep::<Seq<char>>::Done(None),
        next_gateway_step(GatewayStep::ReadPrimary, Some(seq!['/'])) == GatewayStep::<
            Seq<char>,
        >::Done(None),
        next_gateway_step(GatewayStep::ReadPrimary, Some(seq![])) == GatewayStep::<Seq<char>>::Done(
            None,
        ),
        next_gateway_step(GatewayStep::ReadIp4Config { connection: path }, None) == GatewayStep::<
            Seq<char>,
        >::Done(None),
        next_gateway_step(GatewayStep::ReadIp4Config { connection: path }, Some(seq!['/']))
            == GatewayStep::<Seq<char>>::Done(None),
        next_gateway_step(GatewayStep::ReadIp4Config { connection: path }, Some(seq![]))
            == GatewayStep::<Seq<char>>::Done(None),
        next_gateway_step(GatewayStep::ReadGateway { config: path }, None) == GatewayStep::<
            Seq<char>,
        >::Done(None),
        next_gateway_step(GatewayStep::ReadGateway { config: path }, Some(seq![]))
            == GatewayStep::<Seq<char>>::Done(None),
        next_gateway_step(GatewayStep::Done(found), reply) == GatewayStep::Done(found),
{
    reveal_strlit("/");
    assert("/"@ =~= seq!['/']);
}

/// The name is what NetworkManager gives for the primary connection, whole.
pub proof fn law_name_is_the_reply(
    primary: Seq<char>,
    found: Option<Seq<char>>,
    id: Option<Seq<char>>,
)
    ensures
        primary != seq!['/'] ==> next_name_step(NameStep::ReadPrimary, Some(primary)) == (
        NameStep::ReadId { connection: primary }),
        next_name_step(NameStep::ReadPrimary, Some(seq!['/'])) == NameStep::<Seq<char>>::Done(None),
        next_name_step(NameStep::ReadPrimary, None) == NameStep::<Seq<char>>::Done(None),
        next_name_step(NameStep::ReadId { connection: primary }, id) == NameStep::Done(id),
        next_name_step(NameStep::Done(found), id) == NameStep::Done(found),
{
    reveal_strlit("/");
    assert("/"@ =~= seq!['/']);
}

/// A step stands for its own words.
pub proof fn law_step_views(s: String)
    ensures
        (GatewayStep::ReadIp4Config { connection: s })@ == (GatewayStep::ReadIp4Config {
            connection: s@,
        }),
        (GatewayStep::ReadGateway { config: s })@ == (GatewayStep::ReadGateway { config: s@ }),
        GatewayStep::Done(Some(s))@ == GatewayStep::Done(Some(s@)),
        GatewayStep::<String>::Done(None)@ == GatewayStep::<Seq<char>>::Done(None),
        GatewayStep::<String>::ReadPrimary@ == GatewayStep::<Seq<char>>::ReadPrimary,
        (NameStep::ReadId { connection: s })@ == (NameStep::ReadId { connection: s@ }),
        NameStep::Done(Some(s))@ == NameStep::Done(Some(s@)),
        NameStep::<String>::Done(None)@ == NameStep::<Seq<char>>::Done(None),
        NameStep::<String>::ReadPrimary@ == NameStep::<Seq<char>>::ReadPrimary,
{
}

} // verus!
