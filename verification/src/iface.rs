//! Network interfaces as plain values, and the choice of the one to scan on.

use crate::addr::{Ipv4, MacAddr};
use vstd::prelude::*;

verus! {

/// One network interface of the machine: what the operating system reports
/// of it, as far as discovery reads it.
#[derive(Debug)]
pub struct NetworkInterface {
    pub index: u32,
    pub name: String,
    pub hardware_address: MacAddr,
    /// The IPv4 addresses bound to the interface, in the order reported.
    pub ipv4: Vec<Ipv4>,
}

/// The mathematical content of a `NetworkInterface`.
pub struct InterfaceView {
    pub index: u32,
    pub name: Seq<char>,
    pub hardware_address: MacAddr,
    pub ipv4: Seq<Ipv4>,
}

impl View for NetworkInterface {
    type V = InterfaceView;

    open spec fn view(&self) -> InterfaceView {
        InterfaceView {
            index: self.index,
            name: self.name@,
            hardware_address: self.hardware_address,
            ipv4: self.ipv4@,
        }
    }
}

impl InterfaceView {
    /// The address that the interface is known by: the first one bound.
    pub open spec fn primary_ipv4(self) -> Option<Ipv4> {
        if self.ipv4.len() > 0 {
            Some(self.ipv4[0])
        } else {
            None
        }
    }
}

impl Clone for NetworkInterface {
    fn clone(&self) -> (r: NetworkInterface)
        ensures
            r@ == self@,
    {
        NetworkInterface {
            index: self.index,
            name: self.name.clone(),
            hardware_address: self.hardware_address,
            ipv4: self.ipv4.clone(),
        }
    }
}

impl NetworkInterface {
    /// The address that the interface is known by: the first one bound.
    pub fn primary_ipv4(&self) -> (r: Option<Ipv4>)
        ensures
            r == self@.primary_ipv4(),
    {
        if self.ipv4.len() > 0 {
            Some(self.ipv4[0])
        } else {
            None
        }
    }

    /// Whether `addr` is one of the addresses bound to the interface.
    pub fn is_bound_to(&self, addr: Ipv4) -> (r: bool)
        ensures
            r == self@.ipv4.contains(addr),
    {
        let mut i: usize = 0;
        while i < self.ipv4.len()
            invariant
                i <= self.ipv4.len(),
                forall|j: int| 0 <= j < i ==> self.ipv4@[j] != addr,
            decreases self.ipv4.len() - i,
        {
            if self.ipv4[i] == addr {
                return true;
            }
            i = i + 1;
        }
        false
    }
}

/// Why no interface could be chosen. Each of these ends the run.
#[derive(Clone, Copy, Debug, PartialEq, Eq, Structural)]
pub enum SelectError {
    /// No interface has the name that was asked for.
    InterfaceNotFound,
    /// No interface is bound to the address of the default route.
    NoDefaultInterface,
    /// The interface that was asked for has no IPv4 address.
    NoIPv4Address,
}

/// The position of the first interface with the given name.
pub open spec fn first_named(list: Seq<InterfaceView>, name: Seq<char>) -> Option<int>
    decreases list.len(),
{
    if list.len() == 0 {
        None
    } else if list[0].name == name {
        Some(0)
    } else {
        match first_named(list.drop_first(), name) {
            Some(i) => Some(i + 1),
            None => None,
        }
    }
}

/// The position of the first interface bound to the given address.
pub open spec fn first_bound_to(list: Seq<InterfaceView>, addr: Ipv4) -> Option<int>
    decreases list.len(),
{
    if list.len() == 0 {
        None
    } else if list[0].ipv4.contains(addr) {
        Some(0)
    } else {
        match first_bound_to(list.drop_first(), addr) {
            Some(i) => Some(i + 1),
            None => None,
        }
    }
}

/// Which interface is chosen, by its position in the list.
///
/// With a name: the first interface of that name, which must have an IPv4
/// address. Without one: the first interface bound to the address of the
/// default route. Another interface is never taken in its place.
pub open spec fn selection(
    list: Seq<InterfaceView>,
    explicit_name: Option<Seq<char>>,
    default_route_addr: Option<Ipv4>,
) -> Result<int, SelectError> {
    match explicit_name {
        Some(name) => match first_named(list, name) {
            None => Err(SelectError::InterfaceNotFound),
            Some(i) => if list[i].ipv4.len() == 0 {
                Err(SelectError::NoIPv4Address)
            } else {
                Ok(i)
            },
        },
        None => match default_route_addr {
            None => Err(SelectError::NoDefaultInterface),
            Some(addr) => match first_bound_to(list, addr) {
                None => Err(SelectError::NoDefaultInterface),
                Some(i) => Ok(i),
            },
        },
    }
}

/// `first_named` finds a position of the list, the interface there has the
/// name, and none before it has; it finds none only if no interface has it.
pub proof fn lemma_first_named(list: Seq<InterfaceView>, name: Seq<char>)
    ensures
        match first_named(list, name) {
            Some(i) => 0 <= i < list.len() && list[i].name == name && forall|j: int|
                0 <= j < i ==> list[j].name != name,
            None => forall|j: int| 0 <= j < list.len() ==> list[j].name != name,
        },
    decreases list.len(),
{
    if list.len() > 0 && list[0].name != name {
        let rest = list.drop_first();
        lemma_first_named(rest, name);
        assert(forall|j: int| 0 <= j < rest.len() ==> rest[j] == list[j + 1]);
        match first_named(rest, name) {
            Some(i) => {
                assert forall|j: int| 0 <= j < i + 1 implies list[j].name != name by {
                    if j > 0 {
                        assert(rest[j - 1] == list[j]);
                    }
                }
            },
            None => {
                assert forall|j: int| 0 <= j < list.len() implies list[j].name != name by {
                    if j > 0 {
                        assert(rest[j - 1] == list[j]);
                    }
                }
            },
        }
    }
}

/// `first_bound_to` finds a position of the list, the interface there is
/// bound to the address, and none before it is; it finds none only if no
/// interface is bound to it.
pub proof fn lemma_first_bound_to(list: Seq<InterfaceView>, addr: Ipv4)
    ensures
        match first_bound_to(list, addr) {
            Some(i) => 0 <= i < list.len() && list[i].ipv4.contains(addr) && forall|j: int|
                0 <= j < i ==> !list[j].ipv4.contains(addr),
            None => forall|j: int| 0 <= j < list.len() ==> !list[j].ipv4.contains(addr),
        },
    decreases list.len(),
{
    if list.len() > 0 && !list[0].ipv4.contains(addr) {
        let rest = list.drop_first();
        lemma_first_bound_to(rest, addr);
        assert(forall|j: int| 0 <= j < rest.len() ==> rest[j] == list[j + 1]);
        match first_bound_to(rest, addr) {
            Some(i) => {
                assert forall|j: int| 0 <= j < i + 1 implies !list[j].ipv4.contains(addr) by {
                    if j > 0 {
                        assert(rest[j - 1] == list[j]);
                    }
                }
            },
            None => {
                assert forall|j: int| 0 <= j < list.len() implies !list[j].ipv4.contains(
                    addr,
                ) by {
                    if j > 0 {
                        assert(rest[j - 1] == list[j]);
                    }
                }
            },
        }
    }
}

/// The interface chosen stands in the list and has an IPv4 address.
pub proof fn lemma_selection(
    list: Seq<InterfaceView>,
    explicit_name: Option<Seq<char>>,
    default_route_addr: Option<Ipv4>,
)
    ensures
        match selection(list, explicit_name, default_route_addr) {
            Ok(i) => 0 <= i < list.len() && list[i].ipv4.len() > 0,
            Err(e) => true,
        },
{
    match explicit_name {
        Some(name) => {
            lemma_first_named(list, name);
        },
        None => {
            if default_route_addr.is_some() {
                lemma_first_bound_to(list, default_route_addr.unwrap());
            }
        },
    }
}

/// The views of the interfaces of a list, in order.
pub open spec fn interface_views(list: Seq<NetworkInterface>) -> Seq<InterfaceView> {
    list.map_values(|i: NetworkInterface| i@)
}

/// The view of an optional name.
pub open spec fn name_view(name: Option<String>) -> Option<Seq<char>> {
    match name {
        Some(n) => Some(n@),
        None => None,
    }
}

/// The position of the first interface of exactly the given name.
pub fn find_named(interfaces: &Vec<NetworkInterface>, name: &String) -> (r: Option<usize>)
    ensures
        match r {
            Some(i) => first_named(interface_views(interfaces@), name@) == Some(i as int),
            None => first_named(interface_views(interfaces@), name@).is_none(),
        },
{
    let ghost views = interface_views(interfaces@);
    let mut i: usize = 0;
    while i < interfaces.len()
        invariant
            i <= interfaces.len(),
            views == interface_views(interfaces@),
            forall|j: int| 0 <= j < i ==> views[j].name != name@,
        decreases interfaces.len() - i,
    {
        assert(views[i as int] == interfaces@[i as int]@);
        if interfaces[i].name == *name {
            proof {
                lemma_first_named(views, name@);
            }
            return Some(i);
        }
        i = i + 1;
    }
    proof {
        lemma_first_named(views, name@);
    }
    None
}

/// The position of the first interface bound to the given address.
fn find_bound_to(interfaces: &Vec<NetworkInterface>, addr: Ipv4) -> (r: Option<usize>)
    ensures
        match r {
            Some(i) => first_bound_to(interface_views(interfaces@), addr) == Some(i as int),
            None => first_bound_to(interface_views(interfaces@), addr).is_none(),
        },
{
    let ghost views = interface_views(interfaces@);
    let mut i: usize = 0;
    while i < interfaces.len()
        invariant
            i <= interfaces.len(),
            views == interface_views(interfaces@),
            forall|j: int| 0 <= j < i ==> !views[j].ipv4.contains(addr),
        decreases interfaces.len() - i,
    {
        assert(views[i as int] == interfaces@[i as int]@);
        if interfaces[i].is_bound_to(addr) {
            proof {
                lemma_first_bound_to(views, addr);
            }
            return Some(i);
        }
        i = i + 1;
    }
    proof {
        lemma_first_bound_to(views, addr);
    }
    None
}

/// Chooses the position of the interface to scan on.
pub fn select_index(
    interfaces: &Vec<NetworkInterface>,
    explicit_name: &Option<String>,
    default_route_addr: Option<Ipv4>,
) -> (r: Result<usize, SelectError>)
    ensures
        match r {
            Ok(i) => i < interfaces@.len() && selection(
                interface_views(interfaces@),
                name_view(*explicit_name),
                default_route_addr,
            ) == Ok::<int, SelectError>(i as int),
            Err(e) => selection(
                interface_views(interfaces@),
                name_view(*explicit_name),
                default_route_addr,
            ) == Err::<int, SelectError>(e),
        },
{
    let ghost views = interface_views(interfaces@);
    match explicit_name {
        Some(name) => {
            proof {
                lemma_first_named(views, name@);
            }
            match find_named(interfaces, name) {
                None => Err(SelectError::InterfaceNotFound),
                Some(i) => {
                    assert(views[i as int] == interfaces@[i as int]@);
                    if interfaces[i].ipv4.len() == 0 {
                        Err(SelectError::NoIPv4Address)
                    } else {
                        Ok(i)
                    }
                },
            }
        },
        None => match default_route_addr {
            None => Err(SelectError::NoDefaultInterface),
            Some(addr) => {
                proof {
                    lemma_first_bound_to(views, addr);
                }
                match find_bound_to(interfaces, addr) {
                    None => Err(SelectError::NoDefaultInterface),
                    Some(i) => Ok(i),
                }
            },
        },
    }
}

/// Chooses the interface to scan on.
///
/// With `explicit_name`, the first interface of exactly that name is taken:
/// `InterfaceNotFound` if there is none, `NoIPv4Address` if it has no IPv4
/// address. Without it, the first interface bound to `default_route_addr` is
/// taken: `NoDefaultInterface` if there is none, or no default route.
pub fn select(
    interfaces: &Vec<NetworkInterface>,
    explicit_name: &Option<String>,
    default_route_addr: Option<Ipv4>,
) -> (r: Result<NetworkInterface, SelectError>)
    ensures
        match selection(
            interface_views(interfaces@),
            name_view(*explicit_name),
            default_route_addr,
        ) {
            Ok(i) => r.is_ok() && r.unwrap()@ == interfaces@[i]@ && r.unwrap()@.ipv4.len() > 0,
            Err(e) => r == Err::<NetworkInterface, SelectError>(e),
        },
{
    match select_index(interfaces, explicit_name, default_route_addr) {
        Ok(i) => {
            proof {
                let views = interface_views(interfaces@);
                assert(views[i as int] == interfaces@[i as int]@);
                if explicit_name.is_none() {
                    lemma_first_bound_to(views, default_route_addr.unwrap());
                }
            }
            Ok(interfaces[i].clone())
        },
        Err(e) => Err(e),
    }
}

} // verus!
