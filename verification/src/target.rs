//! Where connections go.

use vstd::prelude::*;

use crate::text;
use crate::text::decimal;

verus! {

/// Where a connection goes.
#[derive(Debug, PartialEq, Eq)]
pub enum Target {
    /// A host name and a port.
    Hostname(String, u16),
    /// A socket address, written out.
    Address(String),
}

/// What a target says.
pub enum TargetView {
    Hostname(Seq<char>, u16),
    Address(Seq<char>),
}

impl View for Target {
    type V = TargetView;

    open spec fn view(&self) -> TargetView {
        match *self {
            Target::Hostname(host, port) => TargetView::Hostname(host@, port),
            Target::Address(address) => TargetView::Address(address@),
        }
    }
}

/// The host and port of a target, as one text.
pub open spec fn hostport_of(target: TargetView) -> Seq<char> {
    match target {
        TargetView::Hostname(host, port) => host + ":"@ + text::digits(port as nat, 10),
        TargetView::Address(address) => address,
    }
}

/// The host and port of a target, as one text.
pub fn hostport(target: &Target) -> (res: String)
    ensures
        res@ == hostport_of(target@),
{
    match target {
        Target::Hostname(host, port) => {
            let mut out: String = host.clone();
            out.append(":");
            out.append(decimal(*port as u64).as_str());
            out
        },
        Target::Address(address) => address.clone(),
    }
}

} // verus!
