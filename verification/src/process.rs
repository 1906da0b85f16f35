//! The watcher that keeps the blocked programs from running.
//!
//! While it runs, a loop in the program around this library lists the live
//! processes, ends those that the watcher picks, and sleeps for
//! `POLL_INTERVAL_SECS` seconds, over and over. The watcher holds the flag
//! that the loop goes by, says which processes are to be ended, and tells the
//! loop its next step.

use crate::text::to_chars;
use vstd::prelude::*;

verus! {

/// The seconds between two scans of the process table.
pub const POLL_INTERVAL_SECS: u64 = 2;

/// The names of the programs that are ended while a lock is active.
pub open spec fn target_processes() -> Seq<Seq<char>> {
    seq![
        "LeagueClient.exe"@,
        "LeagueClientUx.exe"@,
        "League of Legends.exe"@,
        "RiotClientServices.exe"@,
        "RiotClientUx.exe"@,
        "RiotClientCrashHandler.exe"@,
        "LeagueClient"@,
        "League of Legends"@,
        "RiotClient"@,
        "NaverGameLauncher.exe"@,
        "CHZZK.exe"@,
    ]
}

/// The code of `c`, with the capital letters A to Z moved onto the small
/// ones.
pub open spec fn ascii_fold(c: char) -> u32 {
    if 'A' <= c && c <= 'Z' {
        (c as u32 + 32) as u32
    } else {
        c as u32
    }
}

/// Whether `a` and `b` are the same but for the case of the letters A to Z.
pub open spec fn eq_ignore_ascii_case(a: Seq<char>, b: Seq<char>) -> bool {
    &&& a.len() == b.len()
    &&& forall|i: int| 0 <= i < a.len() ==> ascii_fold(a[i]) == ascii_fold(b[i])
}

/// Whether `name` is one of `targets`, but for the case of the letters.
pub open spec fn names_target(name: Seq<char>, targets: Seq<Seq<char>>) -> bool {
    exists|k: int| 0 <= k < targets.len() && eq_ignore_ascii_case(name, #[trigger] targets[k])
}

/// The views of the strings of `names`, in order.
pub open spec fn string_views(names: Seq<String>) -> Seq<Seq<char>> {
    Seq::new(names.len(), |i: int| names[i]@)
}

/// Whether `picked` holds, in rising order, the positions in `names` of the
/// names of blocked programs, and nothing else.
pub open spec fn picks_targets(picked: Seq<usize>, names: Seq<String>) -> bool {
    &&& forall|k: int|
        0 <= k < picked.len() ==> (#[trigger] picked[k]) < names.len() && names_target(
            names[picked[k] as int]@,
            target_processes(),
        )
    &&& forall|i: int|
        0 <= i < names.len() && names_target(#[trigger] names[i]@, target_processes())
            ==> picked.contains(i as usize)
    &&& forall|j: int, k: int| 0 <= j < k < picked.len() ==> picked[j] < picked[k]
}

/// What the watcher's loop has just done.
#[derive(Debug)]
pub enum WatchEvent {
    /// It has begun, or has slept, and has read the flag: this is what the
    /// flag held.
    Woke(bool),
    /// It has listed the live processes: these are their names.
    Scanned(Vec<String>),
    /// It has ended the processes it was told to end. One that was gone by
    /// then counts as ended.
    Ended,
}

/// What the watcher's loop does next.
#[derive(Debug)]
pub enum WatchStep {
    /// List the live processes.
    Scan,
    /// End the processes at these positions of the list.
    End(Vec<usize>),
    /// Sleep for this many seconds, then read the flag.
    Sleep(u64),
    /// Leave the loop.
    Exit,
}

/// The code of `c` with capital letters moved onto small ones.
fn fold(c: char) -> (code: u32)
    ensures
        code == ascii_fold(c),
{
    if 'A' <= c && c <= 'Z' {
        c as u32 + 32
    } else {
        c as u32
    }
}

/// Whether `a` and `b` are the same but for the case of the letters A to Z.
pub fn same_ignoring_case(a: &Vec<char>, b: &Vec<char>) -> (same: bool)
    ensures
        same == eq_ignore_ascii_case(a@, b@),
{
    if a.len() != b.len() {
        return false;
    }
    let mut i: usize = 0;
    while i < a.len()
        invariant
            i <= a.len(),
            a.len() == b.len(),
            forall|j: int| 0 <= j < i ==> ascii_fold(a@[j]) == ascii_fold(b@[j]),
        decreases a.len() - i,
    {
        if fold(a[i]) != fold(b[i]) {
            return false;
        }
        i += 1;
    }
    true
}

/// The watcher of the blocked programs.
pub struct ProcessWatcher {
    running: bool,
    targets: Vec<String>,
}

impl ProcessWatcher {
    #[verifier::type_invariant]
    spec fn targets_fixed(self) -> bool {
        string_views(self.targets@) == target_processes()
    }

    /// Whether the watcher runs.
    pub closed spec fn running(&self) -> bool {
        self.running
    }

    /// A watcher that does not run.
    pub fn new() -> (watcher: Self)
        ensures
            !watcher.running(),
    {
        ProcessWatcher { running: false, targets: Self::get_target_processes() }
    }

    /// The names of the programs that are ended while a lock is active.
    pub fn get_target_processes() -> (targets: Vec<String>)
        ensures
            string_views(targets@) == target_processes(),
    {
        let targets = vec![
            "LeagueClient.exe".to_owned(),
            "LeagueClientUx.exe".to_owned(),
            "League of Legends.exe".to_owned(),
            "RiotClientServices.exe".to_owned(),
            "RiotClientUx.exe".to_owned(),
            "RiotClientCrashHandler.exe".to_owned(),
            "LeagueClient".to_owned(),
            "League of Legends".to_owned(),
            "RiotClient".to_owned(),
            "NaverGameLauncher.exe".to_owned(),
            "CHZZK.exe".to_owned(),
        ];
        assert(string_views(targets@) =~= target_processes());
        targets
    }

    /// Sets the watcher running. Says whether a loop has to be launched: it
    /// has not where the watcher ran already, and the watcher then stays as
    /// it is.
    pub fn start(&mut self) -> (launch: bool)
        ensures
            final(self).running(),
            launch == !old(self).running(),
            old(self).running() ==> *final(self) == *old(self),
    {
        proof {
            use_type_invariant(&*self);
        }
        let launch = !self.running;
        self.running = true;
        launch
    }

    /// Stops the watcher. The loop sees this at its next turn and ends. A
    /// watcher that does not run stays as it is.
    pub fn stop(&mut self)
        ensures
            !final(self).running(),
            !old(self).running() ==> *final(self) == *old(self),
    {
        proof {
            use_type_invariant(&*self);
        }
        self.running = false;
    }

    /// Whether the watcher runs.
    pub fn is_running(&self) -> (running: bool)
        ensures
            running == self.running(),
    {
        self.running
    }

    /// Whether a process named `name` is to be ended: whether the name is
    /// that of a blocked program, whatever the case of its letters.
    pub fn is_target(&self, name: &str) -> (target: bool)
        ensures
            target == names_target(name@, target_processes()),
    {
        proof {
            use_type_invariant(self);
        }
        let chars = to_chars(name);
        let mut k: usize = 0;
        while k < self.targets.len()
            invariant
                k <= self.targets.len(),
                chars@ == name@,
                string_views(self.targets@) == target_processes(),
                forall|j: int|
                    0 <= j < k ==> !eq_ignore_ascii_case(chars@, #[trigger] target_processes()[j]),
            decreases self.targets.len() - k,
        {
            let target = to_chars(self.targets[k].as_str());
            assert(target@ == string_views(self.targets@)[k as int]);
            if same_ignoring_case(&chars, &target) {
                assert(string_views(self.targets@).len() == self.targets@.len());
                assert(eq_ignore_ascii_case(name@, target_processes()[k as int]));
                return true;
            }
            k += 1;
        }
        false
    }

    /// The processes to end in one scan, where `names` holds the names of
    /// the live processes: the positions in `names`, in rising order, of
    /// those that `is_target` accepts.
    pub fn pick_targets(&self, names: &Vec<String>) -> (picked: Vec<usize>)
        ensures
            picks_targets(picked@, names@),
    {
        let mut picked: Vec<usize> = Vec::new();
        let mut i: usize = 0;
        while i < names.len()
            invariant
                i <= names.len(),
                forall|k: int|
                    0 <= k < picked.len() ==> (#[trigger] picked[k]) < i && names_target(
                        names[picked[k] as int]@,
                        target_processes(),
                    ),
                forall|n: int|
                    0 <= n < i && names_target(#[trigger] names[n]@, target_processes())
                        ==> picked@.contains(n as usize),
                forall|j: int, k: int| 0 <= j < k < picked.len() ==> picked[j] < picked[k],
            decreases names.len() - i,
        {
            if self.is_target(names[i].as_str()) {
                let ghost before = picked@;
                picked.push(i);
                assert(picked@[before.len() as int] == i);
                assert forall|n: int|
                    0 <= n < i + 1 && names_target(
                        #[trigger] names[n]@,
                        target_processes(),
                    ) implies picked@.contains(n as usize) by {
                    if n < i {
                        let at = choose|at: int| 0 <= at < before.len() && before[at] == n as usize;
                        assert(picked@[at] == n as usize);
                    }
                }
            }
            i += 1;
        }
        picked
    }

    /// The next step of the watcher's loop after `event`. While the flag is
    /// set the loop lists the processes, ends the blocked ones, and sleeps
    /// for `POLL_INTERVAL_SECS` seconds before it reads the flag again; it
    /// leaves once it finds the flag cleared.
    pub fn next_step(&self, event: WatchEvent) -> (step: WatchStep)
        ensures
            match event {
                WatchEvent::Woke(running) => if running {
                    step is Scan
                } else {
                    step is Exit
                },
                WatchEvent::Scanned(names) => step matches WatchStep::End(picked) && picks_targets(
                    picked@,
                    names@,
                ),
                WatchEvent::Ended => step matches WatchStep::Sleep(seconds) && seconds
                    == POLL_INTERVAL_SECS,
            },
    {
        match event {
            WatchEvent::Woke(running) => if running {
                WatchStep::Scan
            } else {
                WatchStep::Exit
            },
            WatchEvent::Scanned(names) => WatchStep::End(self.pick_targets(&names)),
            WatchEvent::Ended => WatchStep::Sleep(POLL_INTERVAL_SECS),
        }
    }
}

impl Default for ProcessWatcher {
    /// A watcher that does not run.
    fn default() -> (watcher: Self)
        ensures
            !watcher.running(),
    {
        Self::new()
    }
}

} // verus!
