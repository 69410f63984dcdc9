//! The interfaces of a host, built from what the discovery layer reports.
use vstd::prelude::*;
use vstd::std_specs::cmp::PartialEqSpec;

use crate::addr::{address_of, to_address, Address, RawAddr};
use crate::flags::{InterfaceFlags, IFF_UP};

verus! {

/// Why the interfaces could not be listed.
#[derive(Debug, Clone)]
pub enum InterfacesError {
    /// The discovery layer failed; its message is kept.
    DiscoveryFailed(String),
}

/// One interface as the discovery layer reports it: its name and its address
/// records, in the order reported.
#[derive(Debug, Clone)]
pub struct RawInterface {
    pub name: String,
    pub addrs: Vec<RawAddr>,
}

/// One network interface of the host.
#[derive(Debug, Clone)]
pub struct Interface {
    /// The name of this interface, which identifies it.
    pub name: String,
    /// All addresses of this interface.
    pub addresses: Vec<Address>,
    /// The flags of this interface. The discovery layer does not report them:
    /// every interface listed is taken to be up.
    pub flags: InterfaceFlags,
}

impl PartialEq for Interface {
    fn eq(&self, other: &Interface) -> (r: bool)
        ensures
            r == (self.name@ == other.name@),
    {
        self.name == other.name
    }
}

impl vstd::std_specs::cmp::PartialEqSpecImpl for Interface {
    open spec fn obeys_eq_spec() -> bool {
        true
    }

    open spec fn eq_spec(&self, other: &Interface) -> bool {
        self.name@ == other.name@
    }
}

/// The flags given to every interface listed.
pub open spec fn listed_flags() -> InterfaceFlags {
    InterfaceFlags { bits: IFF_UP }
}

/// `i` is the interface built from the record `raw`: same name, the mapped
/// addresses in the same order, and the flags of a listed interface.
pub open spec fn built_from(i: Interface, raw: RawInterface) -> bool {
    &&& i.name@ == raw.name@
    &&& i.addresses@ == raw.addrs@.map_values(|a: RawAddr| address_of(a))
    &&& i.flags == listed_flags()
}

/// `r` is what listing gives for what the discovery layer reported.
pub open spec fn listed_from(
    found: Result<Vec<RawInterface>, String>,
    r: Result<Vec<Interface>, InterfacesError>,
) -> bool {
    match found {
        Ok(raws) => match r {
            Ok(ifs) => ifs@.len() == raws@.len() && forall|i: int|
                0 <= i < raws@.len() ==> #[trigger] built_from(ifs@[i], raws@[i]),
            Err(_) => false,
        },
        Err(msg) => r == Err::<Vec<Interface>, InterfacesError>(
            InterfacesError::DiscoveryFailed(msg),
        ),
    }
}

fn to_interface(raw: &RawInterface) -> (r: Interface)
    ensures
        built_from(r, *raw),
{
    let mut addresses: Vec<Address> = Vec::new();
    let mut j: usize = 0;
    while j < raw.addrs.len()
        invariant
            j <= raw.addrs@.len(),
            addresses@ == raw.addrs@.take(j as int).map_values(|a: RawAddr| address_of(a)),
        decreases raw.addrs@.len() - j,
    {
        addresses.push(to_address(&raw.addrs[j]));
        assert(raw.addrs@.take(j as int + 1).map_values(|a: RawAddr| address_of(a))
            =~= raw.addrs@.take(j as int).map_values(|a: RawAddr| address_of(a)).push(
            address_of(raw.addrs@[j as int]),
        ));
        j = j + 1;
    }
    assert(raw.addrs@.take(j as int) =~= raw.addrs@);
    Interface { name: raw.name.clone(), addresses, flags: InterfaceFlags { bits: IFF_UP } }
}

impl Interface {
    /// Builds the list of interfaces from what the discovery layer reported:
    /// one interface per reported one, in the same order, with its name, its
    /// mapped addresses and the flags of an interface that is up. A failure of
    /// the discovery layer is handed on as `DiscoveryFailed`, never as an empty
    /// list.
    pub fn get_all(found: Result<Vec<RawInterface>, String>) -> (r: Result<
        Vec<Interface>,
        InterfacesError,
    >)
        ensures
            listed_from(found, r),
    {
        match found {
            Err(msg) => Err(InterfacesError::DiscoveryFailed(msg)),
            Ok(raws) => {
                let mut res: Vec<Interface> = Vec::new();
                let mut i: usize = 0;
                while i < raws.len()
                    invariant
                        i <= raws@.len(),
                        res@.len() == i,
                        forall|k: int| 0 <= k < i ==> #[trigger] built_from(res@[k], raws@[k]),
                    decreases raws@.len() - i,
                {
                    let intf = to_interface(&raws[i]);
                    res.push(intf);
                    i = i + 1;
                }
                Ok(res)
            },
        }
    }
}

/// Interfaces are `==` exactly when their names are equal, whatever their
/// addresses and flags.
pub proof fn lemma_interface_eq_by_name(a: Interface, b: Interface)
    ensures
        a.eq_spec(&b) <==> a.name@ == b.name@,
{
}

/// When the discovery layer reports no interface, listing succeeds with an
/// empty list.
pub proof fn lemma_no_interface_lists_empty(
    found: Result<Vec<RawInterface>, String>,
    r: Result<Vec<Interface>, InterfacesError>,
)
    requires
        found is Ok && found->Ok_0@.len() == 0,
        listed_from(found, r),
    ensures
        r is Ok && r->Ok_0@.len() == 0,
{
}

/// When the discovery layer fails, listing fails too, with the layer's message.
pub proof fn lemma_failure_is_handed_on(
    found: Result<Vec<RawInterface>, String>,
    r: Result<Vec<Interface>, InterfacesError>,
)
    requires
        found is Err,
        listed_from(found, r),
    ensures
        r == Err::<Vec<Interface>, InterfacesError>(InterfacesError::DiscoveryFailed(found->Err_0)),
{
}

} // verus!
