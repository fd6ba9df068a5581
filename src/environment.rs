//! Routing of the compositor's global announcements, and the globals a
//! session cannot start without.
use vstd::prelude::*;
use crate::output::OutputManagerEvent;
use crate::seat::SeatManagerEvent;

verus! {

/// Where an announcement of a global goes.
#[derive(Clone, Copy, Debug, PartialEq, Eq, Structural)]
pub enum GlobalRoute {
    /// To the output manager's queue
    Output(OutputManagerEvent),
    /// To the seat manager's queue
    Seat(SeatManagerEvent),
    /// Nowhere: no manager tracks globals of this interface
    Ignored,
}

/// Interface name of outputs.
pub open spec fn output_interface() -> Seq<char> {
    seq!['w', 'l', '_', 'o', 'u', 't', 'p', 'u', 't']
}

/// Interface name of seats.
pub open spec fn seat_interface() -> Seq<char> {
    seq!['w', 'l', '_', 's', 'e', 'a', 't']
}

fn output_name() -> (r: String)
    ensures
        r@ == output_interface(),
{
    let s = String::from_str("wl_output");
    proof {
        reveal_strlit("wl_output");
        assert(s@ =~= output_interface());
    }
    s
}

fn seat_name() -> (r: String)
    ensures
        r@ == seat_interface(),
{
    let s = String::from_str("wl_seat");
    proof {
        reveal_strlit("wl_seat");
        assert(s@ =~= seat_interface());
    }
    s
}

/// Routes the announcement of a new global `id` of `interface` at `version`.
pub fn route_new_global(id: u32, interface: &String, version: u32) -> (r: GlobalRoute)
    ensures
        interface@ == output_interface() ==> r == GlobalRoute::Output(OutputManagerEvent::NewOutput { id, version }),
        interface@ == seat_interface() ==> r == GlobalRoute::Seat(SeatManagerEvent::NewSeat { id, version }),
        interface@ != output_interface() && interface@ != seat_interface() ==> r == GlobalRoute::Ignored,
{
    if *interface == output_name() {
        GlobalRoute::Output(OutputManagerEvent::NewOutput { id, version })
    } else if *interface == seat_name() {
        GlobalRoute::Seat(SeatManagerEvent::NewSeat { id, version })
    } else {
        GlobalRoute::Ignored
    }
}

/// Routes the removal of global `id` of `interface`.
pub fn route_removed_global(id: u32, interface: &String) -> (r: GlobalRoute)
    ensures
        interface@ == output_interface() ==> r == GlobalRoute::Output(OutputManagerEvent::RemoveOutput { id }),
        interface@ == seat_interface() ==> r == GlobalRoute::Seat(SeatManagerEvent::RemoveSeat { id }),
        interface@ != output_interface() && interface@ != seat_interface() ==> r == GlobalRoute::Ignored,
{
    if *interface == output_name() {
        GlobalRoute::Output(OutputManagerEvent::RemoveOutput { id })
    } else if *interface == seat_name() {
        GlobalRoute::Seat(SeatManagerEvent::RemoveSeat { id })
    } else {
        GlobalRoute::Ignored
    }
}

/// A global the session needs was not advertised by the compositor.
#[derive(Debug)]
pub enum SetupError {
    /// The interface of the missing global
    MissingGlobal(String),
}

/// The interfaces a session cannot start without, in the order checked.
pub open spec fn required_interfaces() -> Seq<Seq<char>> {
    seq![
        seq!['w', 'l', '_', 'c', 'o', 'm', 'p', 'o', 's', 'i', 't', 'o', 'r'],
        seq!['w', 'l', '_', 's', 'u', 'b', 'c', 'o', 'm', 'p', 'o', 's', 'i', 't', 'o', 'r'],
        seq!['w', 'l', '_', 's', 'h', 'm'],
        seq!['w', 'l', '_', 'd', 'a', 't', 'a', '_', 'd', 'e', 'v', 'i', 'c', 'e', '_', 'm', 'a', 'n', 'a', 'g', 'e', 'r'],
    ]
}

fn required_names() -> (r: Vec<String>)
    ensures
        r@.len() == required_interfaces().len(),
        forall|i: int| 0 <= i < r@.len() ==> (#[trigger] r@[i])@ == required_interfaces()[i],
{
    let a = String::from_str("wl_compositor");
    let b = String::from_str("wl_subcompositor");
    let c = String::from_str("wl_shm");
    let d = String::from_str("wl_data_device_manager");
    proof {
        reveal_strlit("wl_compositor");
        reveal_strlit("wl_subcompositor");
        reveal_strlit("wl_shm");
        reveal_strlit("wl_data_device_manager");
        assert(a@ =~= required_interfaces()[0]);
        assert(b@ =~= required_interfaces()[1]);
        assert(c@ =~= required_interfaces()[2]);
        assert(d@ =~= required_interfaces()[3]);
    }
    vec![a, b, c, d]
}

/// `advertised` lists interface `name`.
pub open spec fn advertises(advertised: Seq<String>, name: Seq<char>) -> bool {
    exists|j: int| 0 <= j < advertised.len() && (#[trigger] advertised[j])@ == name
}

/// Checks that every required global was advertised; the error names the
/// first required interface (in the order of `required_interfaces`) missing.
pub fn check_required_globals(advertised: &Vec<String>) -> (r: Result<(), SetupError>)
    ensures
        r is Ok <==> forall|i: int|
            0 <= i < required_interfaces().len() ==> advertises(advertised@, #[trigger] required_interfaces()[i]),
        r matches Err(SetupError::MissingGlobal(m)) ==> exists|i: int|
            0 <= i < required_interfaces().len() && m@ == required_interfaces()[i] && !advertises(advertised@, m@)
                && forall|k: int| 0 <= k < i ==> advertises(advertised@, #[trigger] required_interfaces()[k]),
{
    let required = required_names();
    let n = required.len();
    let mut i: usize = 0;
    while i < n
        invariant
            n == required@.len(),
            n == required_interfaces().len(),
            0 <= i <= n,
            forall|k: int| 0 <= k < required@.len() ==> (#[trigger] required@[k])@ == required_interfaces()[k],
            forall|k: int| 0 <= k < i ==> advertises(advertised@, #[trigger] required_interfaces()[k]),
        decreases n - i,
    {
        let m = advertised.len();
        let mut j: usize = 0;
        let mut found = false;
        while j < m && !found
            invariant
                m == advertised@.len(),
                0 <= j <= m,
                i < required@.len(),
                !found ==> forall|k: int| 0 <= k < j ==> (#[trigger] advertised@[k])@ != required@[i as int]@,
                found ==> advertises(advertised@, required@[i as int]@),
            decreases m - j + if found { 0int } else { 1int },
        {
            if advertised[j] == required[i] {
                found = true;
            } else {
                j = j + 1;
            }
        }
        if !found {
            let missing = required[i].clone();
            return Err(SetupError::MissingGlobal(missing));
        }
        i = i + 1;
    }
    Ok(())
}

} // verus!
