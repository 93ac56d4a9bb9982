//! The watch-set registry: the mutable session state consulted to route
//! and filter events.
//!
//! A monitoring session owns an ordered set of absolute watch-root
//! directories.  Every mutator demands that a session has been started;
//! before that each returns a descriptive error and changes nothing.
//! Adding a directory twice is permitted and keeps a single entry;
//! removing a directory that is not watched is an error.  Callers that
//! hold the state behind a lock take a snapshot copy of the directory
//! list rather than holding the lock across slow lookups.

use vstd::prelude::*;
use crate::path::is_path_prefix;

verus! {

/// State of one active monitoring session: the ordered watch-set.
pub struct MonitoringState {
    /// Watch-root directories, in the order they were registered.
    pub directories: Vec<String>,
}

/// The registry itself: absent state means no session has started.
pub struct FileMonitor {
    state: Option<MonitoringState>,
}

/// The watch-set after adding one directory: unchanged when the
/// directory is already present, extended at the end otherwise.
pub open spec fn with_directory(dirs: Seq<Seq<char>>, d: Seq<char>) -> Seq<Seq<char>> {
    if dirs.contains(d) {
        dirs
    } else {
        dirs.push(d)
    }
}

/// Number of entries of `dirs` that equal `d`.
pub open spec fn dir_count(dirs: Seq<Seq<char>>, d: Seq<char>) -> nat
    decreases dirs.len(),
{
    if dirs.len() == 0 {
        0
    } else {
        dir_count(dirs.drop_last(), d) + (if dirs.last() == d {
            1nat
        } else {
            0nat
        })
    }
}

/// The watch-set with every entry equal to `d` removed.
pub open spec fn without_directory(dirs: Seq<Seq<char>>, d: Seq<char>) -> Seq<Seq<char>> {
    dirs.filter(|x: Seq<char>| x != d)
}

impl FileMonitor {
    /// The watch-set of the active session, if one has started.
    pub closed spec fn watch_set(&self) -> Option<Seq<Seq<char>>> {
        match self.state {
            Some(ref s) => Some(s.directories.deep_view()),
            None => None,
        }
    }

    /// A fresh registry with no active session.
    pub fn new() -> (r: FileMonitor)
        ensures
            r.watch_set() is None,
    {
        FileMonitor { state: None }
    }

    /// Starts a monitoring session over the given directories.  A
    /// second start while a session is active is rejected and leaves
    /// the active session untouched.
    pub fn start_monitoring(&mut self, directories: Vec<String>) -> (r: Result<(), String>)
        ensures
            old(self).watch_set() is None ==> r is Ok && final(self).watch_set() == Some(
                directories.deep_view(),
            ),
            old(self).watch_set() is Some ==> r is Err && final(self).watch_set() == old(
                self,
            ).watch_set() && r->Err_0@ == "Monitoring is already active"@,
    {
        if self.state.is_some() {
            Err(String::from_str("Monitoring is already active"))
        } else {
            self.state = Some(MonitoringState { directories });
            Ok(())
        }
    }

    /// Ends the session, if any; afterwards no session is active.
    pub fn stop_monitoring(&mut self)
        ensures
            final(self).watch_set() is None,
    {
        self.state = None;
    }

    /// Adds a directory to the watch-set.  Adding an already-watched
    /// directory succeeds and keeps the watch-set unchanged.
    pub fn add_directory(&mut self, directory: String) -> (r: Result<(), String>)
        ensures
            old(self).watch_set() is None ==> r is Err && final(self).watch_set() is None
                && r->Err_0@ == "Monitoring has not been started"@,
            old(self).watch_set() matches Some(dirs) ==> r is Ok && final(self).watch_set()
                == Some(with_directory(dirs, directory@)),
    {
        match self.state {
            Some(ref mut s) => {
                let ghost dirs = s.directories.deep_view();
                let mut found = false;
                let n: usize = s.directories.len();
                let mut i: usize = 0;
                while i < n
                    invariant
                        i <= n,
                        n == s.directories@.len(),
                        dirs == s.directories.deep_view(),
                        found <==> exists|j: int| 0 <= j < i && dirs[j] == directory@,
                    decreases n - i,
                {
                    if s.directories[i] == directory {
                        proof {
                            assert(dirs[i as int] == directory@);
                        }
                        found = true;
                    }
                    i = i + 1;
                }
                proof {
                    if found {
                        let j = choose|j: int| 0 <= j < n && dirs[j] == directory@;
                        assert(dirs.contains(directory@));
                    } else {
                        assert forall|j: int| 0 <= j < dirs.len() implies dirs[j]
                            != directory@ by {}
                        assert(!dirs.contains(directory@));
                    }
                }
                if !found {
                    s.directories.push(directory);
                    proof {
                        assert(s.directories.deep_view() =~~= dirs.push(directory@));
                    }
                }
                Ok(())
            },
            None => Err(String::from_str("Monitoring has not been started")),
        }
    }

    /// Removes a directory from the watch-set.  Removing a directory
    /// that is not watched is an error and changes nothing.
    pub fn remove_directory(&mut self, directory: String) -> (r: Result<(), String>)
        ensures
            old(self).watch_set() is None ==> r is Err && final(self).watch_set() is None
                && r->Err_0@ == "Monitoring has not been started"@,
            old(self).watch_set() matches Some(dirs) ==> {
                &&& dirs.contains(directory@) ==> r is Ok && final(self).watch_set() == Some(
                    without_directory(dirs, directory@),
                )
                &&& !dirs.contains(directory@) ==> r is Err && final(self).watch_set() == Some(
                    dirs,
                ) && r->Err_0@ == "Directory is not being monitored"@
            },
    {
        match self.state {
            Some(ref mut s) => {
                let ghost dirs = s.directories.deep_view();
                let mut kept: Vec<String> = Vec::new();
                let mut found = false;
                let n: usize = s.directories.len();
                let mut i: usize = 0;
                while i < n
                    invariant
                        i <= n,
                        n == s.directories@.len(),
                        dirs == s.directories.deep_view(),
                        kept.deep_view() == dirs.take(i as int).filter(
                            |x: Seq<char>| x != directory@,
                        ),
                        found <==> exists|j: int| 0 <= j < i && dirs[j] == directory@,
                    decreases n - i,
                {
                    proof {
                        assert(dirs.take(i + 1).drop_last() =~= dirs.take(i as int));
                        assert(dirs.take(i + 1).last() == dirs[i as int]);
                        reveal_with_fuel(Seq::filter, 2);
                    }
                    if s.directories[i] == directory {
                        proof {
                            assert(dirs[i as int] == directory@);
                        }
                        found = true;
                    } else {
                        let entry = s.directories[i].clone();
                        proof {
                            assert(entry@ == dirs[i as int]);
                        }
                        kept.push(entry);
                        proof {
                            assert(kept.deep_view() =~~= dirs.take(i as int).filter(
                                |x: Seq<char>| x != directory@,
                            ).push(dirs[i as int]));
                        }
                    }
                    i = i + 1;
                }
                proof {
                    assert(dirs.take(n as int) =~= dirs);
                    if found {
                        assert(dirs.contains(directory@));
                    } else {
                        assert forall|j: int| 0 <= j < dirs.len() implies dirs[j]
                            != directory@ by {}
                        assert(!dirs.contains(directory@));
                    }
                }
                if found {
                    s.directories = kept;
                    Ok(())
                } else {
                    Err(String::from_str("Directory is not being monitored"))
                }
            },
            None => Err(String::from_str("Monitoring has not been started")),
        }
    }

    /// Replaces the whole watch-set of the active session.
    pub fn update_monitoring_directories(&mut self, directories: Vec<String>) -> (r: Result<
        (),
        String,
    >)
        ensures
            old(self).watch_set() is None ==> r is Err && final(self).watch_set() is None
                && r->Err_0@ == "Monitoring has not been started"@,
            old(self).watch_set() is Some ==> r is Ok && final(self).watch_set() == Some(
                directories.deep_view(),
            ),
    {
        match self.state {
            Some(ref mut s) => {
                s.directories = directories;
                Ok(())
            },
            None => Err(String::from_str("Monitoring has not been started")),
        }
    }

    /// A snapshot copy of the watch-set, to be read without holding any
    /// lock that guards the registry.
    pub fn get_watched_directories(&self) -> (r: Result<Vec<String>, String>)
        ensures
            self.watch_set() is None ==> r is Err && r->Err_0@
                == "Monitoring has not been started"@,
            self.watch_set() matches Some(dirs) ==> r is Ok && r->Ok_0.deep_view() == dirs,
    {
        match self.state {
            Some(ref s) => {
                let n: usize = s.directories.len();
                let mut out: Vec<String> = Vec::new();
                let mut i: usize = 0;
                while i < n
                    invariant
                        i <= n,
                        n == s.directories@.len(),
                        out@.len() == i,
                        forall|j: int| 0 <= j < i ==> out@[j]@ == s.directories@[j]@,
                    decreases n - i,
                {
                    out.push(s.directories[i].clone());
                    i = i + 1;
                }
                proof {
                    assert(out.deep_view() =~~= s.directories.deep_view());
                }
                Ok(out)
            },
            None => Err(String::from_str("Monitoring has not been started")),
        }
    }
}

/// A directory occurs in a watch-set exactly as often as `dir_count`
/// says; in particular it occurs at all exactly when the count is
/// positive.
pub proof fn lemma_dir_count_zero_iff_absent(dirs: Seq<Seq<char>>, d: Seq<char>)
    ensures
        (dir_count(dirs, d) == 0) <==> !dirs.contains(d),
    decreases dirs.len(),
{
    if dirs.len() > 0 {
        lemma_dir_count_zero_iff_absent(dirs.drop_last(), d);
        if dirs.last() == d {
            assert(dirs.contains(d)) by {
                assert(dirs[dirs.len() - 1] == d);
            }
        } else {
            if dirs.contains(d) {
                let i = choose|i: int| 0 <= i < dirs.len() && dirs[i] == d;
                assert(i < dirs.len() - 1);
                assert(dirs.drop_last()[i] == d);
                assert(dirs.drop_last().contains(d));
            }
            if dirs.drop_last().contains(d) {
                let i = choose|i: int| 0 <= i < dirs.len() - 1 && dirs.drop_last()[i] == d;
                assert(dirs[i] == d);
            }
        }
    }
}

/// Adding a directory is idempotent: the second of two consecutive adds
/// of the same directory leaves the watch-set exactly as the first left
/// it, and a directory absent before the adds is afterwards present
/// exactly once.
pub proof fn law_add_directory_idempotent(dirs: Seq<Seq<char>>, d: Seq<char>)
    ensures
        with_directory(with_directory(dirs, d), d) == with_directory(dirs, d),
        with_directory(dirs, d).contains(d),
        !dirs.contains(d) ==> dir_count(with_directory(dirs, d), d) == 1,
{
    if dirs.contains(d) {
    } else {
        let once = dirs.push(d);
        assert(once[once.len() - 1] == d);
        assert(once.contains(d));
        assert(once.drop_last() =~= dirs);
        lemma_dir_count_zero_iff_absent(dirs, d);
    }
}

/// Index of the first watch root that owns `path`, if any.
pub open spec fn first_owner(dirs: Seq<Seq<char>>, path: Seq<char>) -> Option<int> {
    if exists|i: int| 0 <= i < dirs.len() && is_path_prefix(dirs[i], path) {
        Some(
            choose|i: int|
                0 <= i < dirs.len() && is_path_prefix(dirs[i], path) && forall|j: int|
                    0 <= j < i ==> !is_path_prefix(dirs[j], path),
        )
    } else {
        None
    }
}

/// Watch root of a rename or move pair: the first root owning the
/// source path wins, the first root owning the destination path is the
/// fallback.
pub open spec fn pair_owner(dirs: Seq<Seq<char>>, from: Seq<char>, to: Seq<char>) -> Option<int> {
    match first_owner(dirs, from) {
        Some(i) => Some(i),
        None => first_owner(dirs, to),
    }
}

/// Finds the first watch root that owns `path`.
pub fn find_watcher(dirs: &Vec<String>, path: &str) -> (r: Option<usize>)
    ensures
        match r {
            Some(i) => i < dirs@.len() && is_path_prefix(dirs.deep_view()[i as int], path@)
                && forall|j: int|
                0 <= j < i ==> !is_path_prefix(dirs.deep_view()[j], path@),
            None => forall|j: int|
                0 <= j < dirs@.len() ==> !is_path_prefix(dirs.deep_view()[j], path@),
        },
        match r {
            Some(i) => first_owner(dirs.deep_view(), path@) == Some(i as int),
            None => first_owner(dirs.deep_view(), path@) is None,
        },
{
    let n: usize = dirs.len();
    let mut i: usize = 0;
    while i < n
        invariant
            i <= n,
            n == dirs@.len(),
            forall|j: int| 0 <= j < i ==> !is_path_prefix(dirs.deep_view()[j], path@),
        decreases n - i,
    {
        if crate::path::path_starts_with(path, dirs[i].as_str()) {
            proof {
                let dv = dirs.deep_view();
                assert(dv[i as int] == dirs@[i as int]@);
                assert(exists|k: int| 0 <= k < dv.len() && is_path_prefix(dv[k], path@));
                assert(0 <= i < dv.len() && is_path_prefix(dv[i as int], path@) && forall|j: int|
                    0 <= j < i ==> !is_path_prefix(dv[j], path@));
                let k = choose|k: int|
                    0 <= k < dv.len() && is_path_prefix(dv[k], path@) && forall|j: int|
                        0 <= j < k ==> !is_path_prefix(dv[j], path@);
                if k < i {
                    assert(!is_path_prefix(dv[k], path@));
                } else if k > i {
                    assert(!is_path_prefix(dv[i as int], path@));
                }
                assert(k == i);
            }
            return Some(i);
        }
        proof {
            assert(dirs.deep_view()[i as int] == dirs@[i as int]@);
        }
        i = i + 1;
    }
    None
}

/// Picks the watch root for a rename or move pair: the root owning the
/// source path wins; the root owning the destination path is the
/// fallback.
pub fn find_watcher_for_pair(dirs: &Vec<String>, from: &str, to: &str) -> (r: Option<usize>)
    ensures
        match r {
            Some(i) => i < dirs@.len() && (is_path_prefix(dirs.deep_view()[i as int], from@)
                || is_path_prefix(dirs.deep_view()[i as int], to@)),
            None => forall|j: int|
                0 <= j < dirs@.len() ==> !is_path_prefix(dirs.deep_view()[j], from@)
                    && !is_path_prefix(dirs.deep_view()[j], to@),
        },
        (exists|j: int| 0 <= j < dirs@.len() && is_path_prefix(dirs.deep_view()[j], from@))
            ==> (r matches Some(i) && is_path_prefix(dirs.deep_view()[i as int], from@)),
        match r {
            Some(i) => pair_owner(dirs.deep_view(), from@, to@) == Some(i as int),
            None => pair_owner(dirs.deep_view(), from@, to@) is None,
        },
{
    match find_watcher(dirs, from) {
        Some(i) => Some(i),
        None => find_watcher(dirs, to),
    }
}

} // verus!
