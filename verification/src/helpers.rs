//! Small helpers around the core: progress bucketing for the UI, the
//! interface list lookup, and the local informational texts.

use vstd::prelude::*;

use vstd::string::StringExecFns;

verus! {

/// Download progress in 3-percentage-point buckets, to bound callback and
/// UI churn. The product saturates rather than wraps; a bucket past 100
/// is clamped to 100.
pub open spec fn spec_progress_bucket(done: u64, total: u64) -> u32 {
    if total == 0 {
        0u32
    } else {
        let prod: int = if done * 100 > u64::MAX {
            u64::MAX as int
        } else {
            done * 100
        };
        let percent: int = (prod / (total as int)) % 0x1_0000_0000;
        if percent >= 100 {
            100u32
        } else {
            ((percent / 3) * 3) as u32
        }
    }
}

/// The 3-point progress bucket for `done` of `total` bytes.
pub fn progress_bucket_3(done: u64, total: u64) -> (r: u32)
    ensures
        r == spec_progress_bucket(done, total),
{
    if total == 0 {
        return 0;
    }
    let prod128: u128 = (done as u128) * 100;
    let prod: u64 = if prod128 > u64::MAX as u128 {
        u64::MAX
    } else {
        prod128 as u64
    };
    let percent64: u64 = prod / total;
    let percent: u32 = (percent64 % 0x1_0000_0000) as u32;
    if percent >= 100 {
        100
    } else {
        (percent / 3) * 3
    }
}

/// A user-friendly network interface: its name, the broadcast address to
/// use on it, and its operational status.
pub struct InterfacesInfo {
    pub name: String,
    pub address_to_broadcast: String,
    pub status: String,
}

/// The broadcast address recorded for an interface name: the first entry
/// whose name matches, if any.
pub fn get_broadcast_for_name(interfaces: &Vec<InterfacesInfo>, name: &str) -> (r: Option<String>)
    ensures
        r is Some <==> exists|j: int| 0 <= j < interfaces@.len() && (
        #[trigger] interfaces@[j]).name@ == name@,
        r matches Some(addr) ==> exists|j: int|
            {
                &&& 0 <= j < interfaces@.len()
                &&& (#[trigger] interfaces@[j]).name@ == name@
                &&& forall|l: int| 0 <= l < j ==> (#[trigger] interfaces@[l]).name@ != name@
                &&& addr@ == interfaces@[j].address_to_broadcast@
            },
{
    let name_string = name.to_owned();
    let n = interfaces.len();
    let mut i: usize = 0;
    while i < n
        invariant
            i <= n,
            n == interfaces@.len(),
            name_string@ == name@,
            forall|l: int| 0 <= l < i ==> (#[trigger] interfaces@[l]).name@ != name@,
        decreases n - i,
    {
        if interfaces[i].name == name_string {
            let addr = interfaces[i].address_to_broadcast.clone();
            return Some(addr);
        }
        i += 1;
    }
    None
}

/// The application information text shown for the local info command.
pub fn info_message() -> (r: String)
    ensures
        r@ =~= (
        "   LanChGo App\n        Talk freely, fast, and local.\n\n        Features:\n        - LAN chat & secure channels\n        - File transfers (no cloud)\n        - QR / PIN pairing\n\n        Links:\n        - Website: https://lanchgo.com/\n        - GitHub:  https://github.com/elhijamuhammed/LanChGo\n\n        (c) 2025 Muhammed Abu El-Hija")@,
{
    String::from_str(
        "   LanChGo App\n        Talk freely, fast, and local.\n\n        Features:\n        - LAN chat & secure channels\n        - File transfers (no cloud)\n        - QR / PIN pairing\n\n        Links:\n        - Website: https://lanchgo.com/\n        - GitHub:  https://github.com/elhijamuhammed/LanChGo\n\n        (c) 2025 Muhammed Abu El-Hija",
    )
}

/// The command summary shown for the local help command.
pub fn help_message() -> (r: String)
    ensures
        r@ =~= (
        "Available Commands\n\n        /info        Show app information\n        /help        Show this help message\n        /clear       Clear chat messages\n        /clearfiles  Clear file transfer panel\n        /clearall    Clear chat and files\n        /disconnect  Disconnect from secure channel\n        /exit        Exit LanChGo\n\n        Tip:\n        Commands are local and not sent over the network.")@,
{
    String::from_str(
        "Available Commands\n\n        /info        Show app information\n        /help        Show this help message\n        /clear       Clear chat messages\n        /clearfiles  Clear file transfer panel\n        /clearall    Clear chat and files\n        /disconnect  Disconnect from secure channel\n        /exit        Exit LanChGo\n\n        Tip:\n        Commands are local and not sent over the network.",
    )
}

} // verus!
