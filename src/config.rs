use vstd::prelude::*;
use crate::text::views;

verus! {

/// The host's plugin settings: the allow-list of plugin file names, the
/// address the host receives on, and the address it sends to.
#[derive(Clone, Debug)]
pub struct Config {
    pub enabled: Vec<String>,
    pub bind_addr: String,
    pub send_addr: String,
}

impl Config {
    /// The allow-list as a sequence of character sequences.
    pub open spec fn enabled_view(&self) -> Seq<Seq<char>> {
        views(self.enabled@)
    }

    /// Whether `name` is on the allow-list, matched exactly.
    pub open spec fn admits(&self, name: Seq<char>) -> bool {
        self.enabled_view().contains(name)
    }

    /// Tests whether `name` is on the allow-list; no case folding, no patterns.
    pub fn is_enabled(&self, name: &String) -> (r: bool)
        ensures
            r == self.admits(name@),
    {
        let mut i: usize = 0;
        while i < self.enabled.len()
            invariant
                i <= self.enabled@.len(),
                forall|k: int| 0 <= k < i ==> self.enabled@[k]@ != name@,
            decreases self.enabled@.len() - i,
        {
            if self.enabled[i] == *name {
                assert(self.enabled_view()[i as int] == name@);
                return true;
            }
            i += 1;
        }
        proof {
            if self.enabled_view().contains(name@) {
                let k = choose|k: int| 0 <= k < self.enabled_view().len() && self.enabled_view()[k] == name@;
                assert(self.enabled@[k]@ == name@);
            }
        }
        false
    }
}

impl Default for Config {
    /// Nothing enabled; receive on every interface at port 9001, send to the
    /// local port 9000.
    fn default() -> (r: Self)
        ensures
            r.enabled@.len() == 0,
            r.bind_addr@ == "0.0.0.0:9001"@,
            r.send_addr@ == "127.0.0.1:9000"@,
    {
        Config {
            enabled: Vec::new(),
            bind_addr: String::from_str("0.0.0.0:9001"),
            send_addr: String::from_str("127.0.0.1:9000"),
        }
    }
}

} // verus!
