//! Registry-key monitoring: the monitored-key state machine, key-path
//! parsing, value cleaning, and the change diff.
//!
//! The blocking registry-change wait and the registry reads themselves
//! happen outside this crate.  Here live the decisions: which root a
//! key path names, whether a key may be added or removed, how raw value
//! bytes render as text, and which change events one polling round
//! reports given the cached and the current values of a key.

use vstd::prelude::*;

verus! {

/// The predefined registry roots a monitored key path may name.
#[derive(Clone, Copy, Debug, PartialEq, Eq, Structural)]
pub enum RegistryRoot {
    ClassesRoot,
    CurrentUser,
    LocalMachine,
    Users,
    CurrentConfig,
}

/// The root a name ahead of the first backslash stands for.
pub open spec fn root_of_name(name: Seq<char>) -> Option<RegistryRoot> {
    if name == "HKEY_LOCAL_MACHINE"@ {
        Some(RegistryRoot::LocalMachine)
    } else if name == "HKEY_CURRENT_USER"@ {
        Some(RegistryRoot::CurrentUser)
    } else if name == "HKEY_CLASSES_ROOT"@ {
        Some(RegistryRoot::ClassesRoot)
    } else if name == "HKEY_USERS"@ {
        Some(RegistryRoot::Users)
    } else if name == "HKEY_CURRENT_CONFIG"@ {
        Some(RegistryRoot::CurrentConfig)
    } else {
        None
    }
}

/// Splits a key path into its root and subkey.  The path must hold a
/// backslash and name a known root ahead of it; the subkey is the text
/// behind that first backslash.
pub fn parse_registry_path(key_path: &str) -> (r: Result<(RegistryRoot, String), String>)
    ensures
        match crate::path::first_index_of(key_path@, '\\') {
            None => r matches Err(m) && m@ == "Invalid registry key path"@,
            Some(i) => {
                let root_name = key_path@.take(i);
                match root_of_name(root_name) {
                    Some(root) => r matches Ok(p) && p.0 == root && p.1@ == key_path@.skip(i + 1),
                    None => r matches Err(m) && m@ == "Unknown root key '"@ + root_name + "'"@,
                }
            },
        },
{
    match crate::path::find_char(key_path, '\\') {
        Some(i) => {
            let n: usize = key_path.unicode_len();
            proof {
                crate::normalize::lemma_first_index_in_range(key_path@, '\\');
            }
            let root_name = key_path.substring_char(0, i);
            let subkey = key_path.substring_char(i + 1, n).to_owned();
            proof {
                assert(root_name@ =~= key_path@.take(i as int));
                assert(subkey@ =~= key_path@.skip(i + 1));
            }
            let root = if crate::strutil::str_eq(root_name, "HKEY_LOCAL_MACHINE") {
                Some(RegistryRoot::LocalMachine)
            } else if crate::strutil::str_eq(root_name, "HKEY_CURRENT_USER") {
                Some(RegistryRoot::CurrentUser)
            } else if crate::strutil::str_eq(root_name, "HKEY_CLASSES_ROOT") {
                Some(RegistryRoot::ClassesRoot)
            } else if crate::strutil::str_eq(root_name, "HKEY_USERS") {
                Some(RegistryRoot::Users)
            } else if crate::strutil::str_eq(root_name, "HKEY_CURRENT_CONFIG") {
                Some(RegistryRoot::CurrentConfig)
            } else {
                None
            };
            match root {
                Some(root) => Ok((root, subkey)),
                None => {
                    let mut m = String::from_str("Unknown root key '");
                    m.append(root_name);
                    m.append("'");
                    Err(m)
                },
            }
        },
        None => Err(String::from_str("Invalid registry key path")),
    }
}

/// The monitored-key registry: a running flag and the set of watched
/// key paths.  All key mutators demand a running session.
pub struct RegistryMonitor {
    running: bool,
    monitored_keys: Vec<String>,
}

impl RegistryMonitor {
    /// Whether monitoring is running.
    pub closed spec fn spec_running(&self) -> bool {
        self.running
    }

    /// The watched key paths.
    pub closed spec fn keys(&self) -> Seq<Seq<char>> {
        self.monitored_keys.deep_view()
    }

    /// A fresh monitor: not running, no keys.
    pub fn new() -> (r: RegistryMonitor)
        ensures
            !r.spec_running(),
            r.keys() == Seq::<Seq<char>>::empty(),
    {
        let r = RegistryMonitor { running: false, monitored_keys: Vec::new() };
        proof {
            assert(r.keys() =~= Seq::<Seq<char>>::empty());
        }
        r
    }

    /// Starts monitoring; a second start is an error.
    pub fn start_monitoring(&mut self) -> (r: Result<(), String>)
        ensures
            old(self).spec_running() ==> (r matches Err(m) && m@
                == "Registry monitoring already started"@ && *final(self) == *old(self)),
            !old(self).spec_running() ==> r is Ok && final(self).spec_running() && final(self).keys() == old(self).keys(),
    {
        if self.running {
            Err(String::from_str("Registry monitoring already started"))
        } else {
            self.running = true;
            Ok(())
        }
    }

    /// Stops monitoring and forgets every key; stopping while not
    /// running is an error.
    pub fn stop_monitoring(&mut self) -> (r: Result<(), String>)
        ensures
            !old(self).spec_running() ==> (r matches Err(m) && m@
                == "Registry monitoring not started"@ && *final(self) == *old(self)),
            old(self).spec_running() ==> r is Ok && !final(self).spec_running() && final(self).keys() == Seq::<Seq<char>>::empty(),
    {
        if !self.running {
            Err(String::from_str("Registry monitoring not started"))
        } else {
            self.running = false;
            self.monitored_keys = Vec::new();
            proof {
                assert(self.keys() =~= Seq::<Seq<char>>::empty());
            }
            Ok(())
        }
    }

    /// Whether monitoring is running.
    pub fn is_running(&self) -> (r: bool)
        ensures
            r == self.spec_running(),
    {
        self.running
    }

    /// Registers a key path for monitoring; a key already watched is an
    /// error.
    pub fn add_registry_key(&mut self, key_path: String) -> (r: Result<(), String>)
        ensures
            old(self).keys().contains(key_path@) ==> (r matches Err(m) && m@
                == "Key is already being monitored"@ && *final(self) == *old(self)),
            !old(self).keys().contains(key_path@) ==> r is Ok && final(self).keys() == old(self).keys().push(key_path@) && final(self).spec_running() == old(self).spec_running(),
    {
        let ghost keys = self.monitored_keys.deep_view();
        let mut found = false;
        let n: usize = self.monitored_keys.len();
        let mut i: usize = 0;
        while i < n
            invariant
                i <= n,
                n == self.monitored_keys@.len(),
                keys == self.monitored_keys.deep_view(),
                found <==> exists|j: int| 0 <= j < i && keys[j] == key_path@,
            decreases n - i,
        {
            if self.monitored_keys[i] == key_path {
                proof {
                    assert(keys[i as int] == key_path@);
                }
                found = true;
            }
            i = i + 1;
        }
        proof {
            if found {
                assert(keys.contains(key_path@));
            } else {
                assert forall|j: int| 0 <= j < keys.len() implies keys[j] != key_path@ by {}
                assert(!keys.contains(key_path@));
            }
        }
        if found {
            Err(String::from_str("Key is already being monitored"))
        } else {
            self.monitored_keys.push(key_path);
            proof {
                assert(self.monitored_keys.deep_view() =~~= keys.push(key_path@));
            }
            Ok(())
        }
    }

    /// Unregisters a key path; a key not watched is an error.
    pub fn remove_registry_key(&mut self, key_path: String) -> (r: Result<(), String>)
        ensures
            !old(self).keys().contains(key_path@) ==> (r matches Err(m) && m@
                == "Key is not being monitored"@ && *final(self) == *old(self)),
            old(self).keys().contains(key_path@) ==> r is Ok && final(self).keys() == old(self).keys().filter(|k: Seq<char>| k != key_path@) && final(self).spec_running() == old(self).spec_running(),
    {
        let ghost keys = self.monitored_keys.deep_view();
        let mut kept: Vec<String> = Vec::new();
        let mut found = false;
        let n: usize = self.monitored_keys.len();
        let mut i: usize = 0;
        while i < n
            invariant
                i <= n,
                n == self.monitored_keys@.len(),
                keys == self.monitored_keys.deep_view(),
                kept.deep_view() == keys.take(i as int).filter(|k: Seq<char>| k != key_path@),
                found <==> exists|j: int| 0 <= j < i && keys[j] == key_path@,
            decreases n - i,
        {
            proof {
                assert(keys.take(i + 1).drop_last() =~= keys.take(i as int));
                assert(keys.take(i + 1).last() == keys[i as int]);
                reveal_with_fuel(Seq::filter, 2);
            }
            if self.monitored_keys[i] == key_path {
                proof {
                    assert(keys[i as int] == key_path@);
                }
                found = true;
            } else {
                let entry = self.monitored_keys[i].clone();
                proof {
                    assert(entry@ == keys[i as int]);
                }
                kept.push(entry);
                proof {
                    assert(kept.deep_view() =~~= keys.take(i as int).filter(
                        |k: Seq<char>| k != key_path@,
                    ).push(keys[i as int]));
                }
            }
            i = i + 1;
        }
        proof {
            assert(keys.take(n as int) =~= keys);
            if found {
                assert(keys.contains(key_path@));
            } else {
                assert forall|j: int| 0 <= j < keys.len() implies keys[j] != key_path@ by {}
                assert(!keys.contains(key_path@));
            }
        }
        if found {
            self.monitored_keys = kept;
            Ok(())
        } else {
            Err(String::from_str("Key is not being monitored"))
        }
    }

    /// A snapshot copy of the watched key paths.
    pub fn get_monitored_keys(&self) -> (r: Result<Vec<String>, String>)
        ensures
            r matches Ok(ks) && ks.deep_view() == self.keys(),
    {
        let n: usize = self.monitored_keys.len();
        let mut out: Vec<String> = Vec::new();
        let mut i: usize = 0;
        while i < n
            invariant
                i <= n,
                n == self.monitored_keys@.len(),
                out@.len() == i,
                forall|j: int| 0 <= j < i ==> out@[j]@ == self.monitored_keys@[j]@,
            decreases n - i,
        {
            out.push(self.monitored_keys[i].clone());
            i = i + 1;
        }
        proof {
            assert(out.deep_view() =~~= self.monitored_keys.deep_view());
        }
        Ok(out)
    }
}

} // verus!
