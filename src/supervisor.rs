//! The fleet supervisor's decisions: which port and drive a new device gets,
//! which devices are mounted, and which of those listed need a setup.
use vstd::prelude::*;
use crate::adb::Device;

verus! {

/// Local ports tried for the forward, in order, both ends included.
pub const BASE_PORT: u16 = 15000;

pub const MAX_PORT: u16 = 16000;

/// The port the daemon listens on, on the device.
pub const DAEMON_PORT: u16 = 12345;

/// The port to try after `port`, while the range lasts.
pub fn next_port(port: u16) -> (r: Option<u16>)
    ensures
        port < MAX_PORT ==> r == Some((port + 1) as u16),
        port >= MAX_PORT ==> r is None,
{
    if port < MAX_PORT {
        Some(port + 1)
    } else {
        None
    }
}

/// What the port search does after a forward attempt.
#[derive(Clone, Copy, Debug, PartialEq, Eq, Structural)]
pub enum PortStep {
    /// The forward to this port worked: the device uses it.
    Bound(u16),
    /// Try this port next.
    Try(u16),
    /// Every port of the range failed.
    Exhausted,
}

/// The search's step after trying `port`: the first port whose forward works
/// is kept; otherwise the next port of the range is tried, until none is left.
pub fn after_forward(port: u16, forwarded: bool) -> (r: PortStep)
    ensures
        forwarded ==> r == PortStep::Bound(port),
        !forwarded && port < MAX_PORT ==> r == PortStep::Try((port + 1) as u16),
        !forwarded && port >= MAX_PORT ==> r == PortStep::Exhausted,
{
    if forwarded {
        PortStep::Bound(port)
    } else {
        match next_port(port) {
            Some(p) => PortStep::Try(p),
            None => PortStep::Exhausted,
        }
    }
}

/// Drive letters in the order they are preferred: `Q` to `Z`, then `D` to `P`.
pub open spec fn drive_letters() -> Seq<char> {
    seq!['Q', 'R', 'S', 'T', 'U', 'V', 'W', 'X', 'Y', 'Z', 'D', 'E', 'F', 'G', 'H', 'I', 'J', 'K', 'L', 'M', 'N', 'O', 'P']
}

pub fn mount_point_letters() -> (r: Vec<char>)
    ensures
        r@ == drive_letters(),
{
    let r = vec!['Q', 'R', 'S', 'T', 'U', 'V', 'W', 'X', 'Y', 'Z', 'D', 'E', 'F', 'G', 'H', 'I', 'J', 'K', 'L', 'M', 'N', 'O', 'P'];
    assert(r@ =~= drive_letters());
    r
}

/// The first drive whose root does not exist yet; `in_use[i]` tells whether
/// the `i`th preferred drive's root exists.
pub fn choose_mount_point(in_use: &Vec<bool>) -> (r: Option<usize>)
    ensures
        match r {
            Some(i) => i < in_use@.len() && !in_use@[i as int] && forall|j: int|
                0 <= j < i ==> #[trigger] in_use@[j],
            None => forall|j: int| 0 <= j < in_use@.len() ==> #[trigger] in_use@[j],
        },
{
    let mut i: usize = 0;
    while i < in_use.len()
        invariant
            i <= in_use@.len(),
            forall|j: int| 0 <= j < i ==> #[trigger] in_use@[j],
        decreases in_use.len() - i,
    {
        if !in_use[i] {
            return Some(i);
        }
        i = i + 1;
    }
    None
}

/// The serials of the mounted devices.
pub struct ActiveDevices {
    serials: Vec<String>,
}

impl ActiveDevices {
    pub closed spec fn view(&self) -> Set<Seq<char>> {
        Set::new(|s: Seq<char>| exists|i: int| 0 <= i < self.serials@.len() && self.serials@[i]@ == s)
    }

    pub fn new() -> (r: Self)
        ensures
            r.view() == Set::<Seq<char>>::empty(),
    {
        let r = ActiveDevices { serials: Vec::new() };
        assert(r.view() =~= Set::<Seq<char>>::empty());
        r
    }

    fn position(&self, serial: &String) -> (r: Option<usize>)
        ensures
            match r {
                Some(i) => i < self.serials@.len() && self.serials@[i as int]@ == serial@,
                None => forall|j: int|
                    0 <= j < self.serials@.len() ==> (#[trigger] self.serials@[j])@ != serial@,
            },
    {
        let mut i: usize = 0;
        while i < self.serials.len()
            invariant
                i <= self.serials@.len(),
                forall|j: int| 0 <= j < i ==> (#[trigger] self.serials@[j])@ != serial@,
            decreases self.serials.len() - i,
        {
            if self.serials[i] == *serial {
                return Some(i);
            }
            i = i + 1;
        }
        None
    }

    pub fn contains(&self, serial: &String) -> (r: bool)
        ensures
            r == self.view().contains(serial@),
    {
        match self.position(serial) {
            Some(i) => {
                assert(self.serials@[i as int]@ == serial@);
                true
            },
            None => false,
        }
    }

    pub fn insert(&mut self, serial: String)
        ensures
            final(self).view() == old(self).view().insert(serial@),
    {
        if self.position(&serial).is_none() {
            let ghost s = serial@;
            self.serials.push(serial);
            assert forall|x: Seq<char>| #[trigger] self.view().contains(x) == old(self).view().insert(
                s,
            ).contains(x) by {
                if old(self).view().contains(x) {
                    let i = choose|i: int|
                        0 <= i < old(self).serials@.len() && old(self).serials@[i]@ == x;
                    assert(self.serials@[i]@ == x);
                }
                if x == s {
                    assert(self.serials@[self.serials@.len() - 1]@ == x);
                }
                if self.view().contains(x) && x != s {
                    let i = choose|i: int| 0 <= i < self.serials@.len() && self.serials@[i]@ == x;
                    assert(i < old(self).serials@.len());
                    assert(old(self).serials@[i]@ == x);
                }
            }
            assert(self.view() =~= old(self).view().insert(s));
        } else {
            assert(self.view() =~= old(self).view().insert(serial@));
        }
    }

    pub fn remove(&mut self, serial: &String)
        ensures
            final(self).view() == old(self).view().remove(serial@),
    {
        self.remove_all(serial);
    }

    fn remove_all(&mut self, serial: &String)
        ensures
            final(self).view() == old(self).view().remove(serial@),
        decreases old(self).serials@.len(),
    {
        match self.position(serial) {
            Some(i) => {
                self.serials.remove(i);
                let ghost mid = *self;
                assert(self.serials@.len() < old(self).serials@.len());
                assert forall|x: Seq<char>| x != serial@ && #[trigger] old(self).view().contains(x)
                    implies mid.view().contains(x) by {
                    let j = choose|j: int|
                        0 <= j < old(self).serials@.len() && old(self).serials@[j]@ == x;
                    assert(j != i);
                    if j < i {
                        assert(mid.serials@[j] == old(self).serials@[j]);
                    } else {
                        assert(mid.serials@[j - 1] == old(self).serials@[j]);
                    }
                }
                assert forall|x: Seq<char>| #[trigger] mid.view().contains(x) implies old(
                    self,
                ).view().contains(x) by {
                    let j = choose|j: int| 0 <= j < mid.serials@.len() && mid.serials@[j]@ == x;
                    if j < i {
                        assert(mid.serials@[j] == old(self).serials@[j]);
                    } else {
                        assert(mid.serials@[j] == old(self).serials@[j + 1]);
                    }
                }
                self.remove_all(serial);
                assert(self.view() =~= old(self).view().remove(serial@));
            },
            None => {
                assert(self.view() =~= old(self).view().remove(serial@));
            },
        }
    }

    /// The positions of the listed devices that are not mounted, in order.
    pub fn to_mount(&self, devices: &Vec<Device>) -> (r: Vec<usize>)
        ensures
            forall|k: int|
                0 <= k < r@.len() ==> #[trigger] r@[k] < devices@.len() && !self.view().contains(
                    devices@[r@[k] as int].serial_number@,
                ),
            forall|i: int|
                0 <= i < devices@.len() && !self.view().contains(devices@[i].serial_number@)
                    ==> #[trigger] r@.contains(i as usize),
            forall|a: int, b: int| 0 <= a < b < r@.len() ==> r@[a] < r@[b],
    {
        let mut r: Vec<usize> = Vec::new();
        let mut i: usize = 0;
        while i < devices.len()
            invariant
                i <= devices@.len(),
                forall|k: int|
                    0 <= k < r@.len() ==> #[trigger] r@[k] < i && !self.view().contains(
                        devices@[r@[k] as int].serial_number@,
                    ),
                forall|j: int|
                    0 <= j < i && !self.view().contains(devices@[j].serial_number@)
                        ==> #[trigger] r@.contains(j as usize),
                forall|a: int, b: int| 0 <= a < b < r@.len() ==> r@[a] < r@[b],
            decreases devices.len() - i,
        {
            if !self.contains(&devices[i].serial_number) {
                let ghost before = r@;
                r.push(i);
                assert(r@[r@.len() - 1] == i);
                assert forall|j: int|
                    0 <= j <= i && !self.view().contains(devices@[j].serial_number@) implies #[trigger] r@.contains(
                    j as usize,
                ) by {
                    if j < i {
                        assert(before.contains(j as usize));
                        let k = choose|k: int| 0 <= k < before.len() && before[k] == j as usize;
                        assert(r@[k] == j as usize);
                    }
                }
            }
            i = i + 1;
        }
        r
    }
}

} // verus!
