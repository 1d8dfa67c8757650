//! The autodetect sweep. Every listed port is tried at every candidate baud
//! rate, one trial after the other; the best scoring trial is kept.

use vstd::prelude::*;
use crate::mapping::CsvMapping;
use crate::scoring::Score;

verus! {

/// The number of candidate baud rates.
pub const BAUD_COUNT: usize = 4;

/// The comma, the delimiter that is reported where nothing was found.
pub const DEFAULT_DELIMITER: char = ',';

/// The candidate baud rates, in the order in which they are tried.
pub open spec fn baud_at(k: int) -> u32 {
    if k == 0 {
        115200
    } else if k == 1 {
        57600
    } else if k == 2 {
        38400
    } else {
        9600
    }
}

/// The `k`-th candidate baud rate.
pub fn baud_candidate(k: usize) -> (baud: u32)
    ensures
        baud == baud_at(k as int),
{
    if k == 0 {
        115200
    } else if k == 1 {
        57600
    } else if k == 2 {
        38400
    } else {
        9600
    }
}

/// What scoring made of the sample of one trial.
#[derive(Clone, Debug, PartialEq, Eq)]
pub struct Guess {
    pub delimiter: char,
    pub mapping: Vec<CsvMapping>,
    pub score: Score,
}

/// One trial: a port and a baud rate to sample.
#[derive(Clone, Debug, PartialEq, Eq)]
pub struct Trial {
    pub port: String,
    pub baud: u32,
}

/// The outcome of a sweep. Without port and baud rate, and with a score of
/// zero, it says that nothing usable was found.
#[derive(Clone, Debug, PartialEq, Eq)]
pub struct AutodetectResult {
    pub port: Option<String>,
    pub baud: Option<u32>,
    pub delimiter: char,
    pub mapping: Vec<CsvMapping>,
    pub score: Score,
}

/// The score to beat: that of the best trial so far, or zero.
pub open spec fn score_to_beat(best: Option<AutodetectResult>) -> Score {
    match best {
        Some(b) => b.score,
        None => Score { tenths: 0, columns: 0 },
    }
}

/// Whether a trial's outcome replaces the best so far: it gave data, and it
/// scores strictly more. On a tie the earlier trial stays.
pub open spec fn improves(best: Option<AutodetectResult>, outcome: Option<Guess>) -> bool {
    match outcome {
        Some(g) => score_to_beat(best).less_than(g.score),
        None => false,
    }
}

/// Whether the result says that nothing usable was found.
pub open spec fn is_empty_result(r: AutodetectResult) -> bool {
    &&& r.port is None
    &&& r.baud is None
    &&& r.delimiter == DEFAULT_DELIMITER
    &&& r.mapping@.len() == 0
    &&& r.score.tenths == 0
    &&& r.score.columns == 0
}

/// The state of a sweep: the ports, the trial that is due, and the best trial
/// so far.
pub struct Autodetect {
    ports: Vec<String>,
    port: usize,
    baud: usize,
    best: Option<AutodetectResult>,
}

impl Autodetect {
    /// The cursor stays within the trials.
    #[verifier::type_invariant]
    spec fn cursor_in_range(self) -> bool {
        &&& self.port <= self.ports@.len()
        &&& self.baud < BAUD_COUNT
        &&& self.port == self.ports@.len() ==> self.baud == 0
    }

    /// The ports of the sweep.
    pub closed spec fn ports(&self) -> Seq<String> {
        self.ports@
    }

    /// The number of trials that were recorded.
    pub closed spec fn done(&self) -> nat {
        (self.port * BAUD_COUNT + self.baud) as nat
    }

    /// The best trial so far.
    pub closed spec fn best(&self) -> Option<AutodetectResult> {
        self.best
    }

    /// The number of trials of the sweep: every port at every baud rate.
    pub open spec fn total(&self) -> nat {
        self.ports().len() * BAUD_COUNT as nat
    }

    /// The port of the trial that is due.
    pub open spec fn due_port(&self) -> String {
        self.ports()[self.done() as int / BAUD_COUNT as int]
    }

    /// The baud rate of the trial that is due.
    pub open spec fn due_baud(&self) -> u32 {
        baud_at(self.done() as int % BAUD_COUNT as int)
    }

    /// The trial that is due, or `None` when the sweep is through. The ports
    /// are taken in their order, and each is tried at every candidate baud
    /// rate before the next port.
    pub fn next_trial(&self) -> (t: Option<Trial>)
        ensures
            self.done() <= self.total(),
            t is None <==> self.done() == self.total(),
            t matches Some(trial) ==> trial.port == self.due_port() && trial.baud
                == self.due_baud(),
    {
        proof {
            use_type_invariant(self);
        }
        if self.port < self.ports.len() {
            Some(Trial { port: self.ports[self.port].clone(), baud: baud_candidate(self.baud) })
        } else {
            None
        }
    }

    /// Records the outcome of the trial that is due: `None` where the device
    /// sent nothing, else what scoring made of the sample. The outcome
    /// becomes the best where it scores strictly more than the best so far,
    /// and more than zero. When the sweep is through, nothing is recorded.
    pub fn record(&mut self, outcome: Option<Guess>)
        ensures
            final(self).ports() == old(self).ports(),
            old(self).done() == old(self).total() ==> final(self).done() == old(self).done()
                && final(self).best() == old(self).best(),
            old(self).done() < old(self).total() ==> final(self).done() == old(self).done() + 1,
            old(self).done() < old(self).total() && !improves(old(self).best(), outcome)
                ==> final(self).best() == old(self).best(),
            old(self).done() < old(self).total() && improves(old(self).best(), outcome) ==> {
                &&& outcome matches Some(g)
                &&& final(self).best() matches Some(b)
                &&& b.port == Some(old(self).due_port())
                &&& b.baud == Some(old(self).due_baud())
                &&& b.delimiter == g.delimiter
                &&& b.mapping == g.mapping
                &&& b.score == g.score
            },
    {
        proof {
            use_type_invariant(&*self);
        }
        if self.port >= self.ports.len() {
            return ;
        }
        match outcome {
            Some(g) => {
                let bar = match &self.best {
                    Some(b) => b.score,
                    None => Score::zero(),
                };
                if bar.lt(&g.score) {
                    self.best = Some(
                        AutodetectResult {
                            port: Some(self.ports[self.port].clone()),
                            baud: Some(baud_candidate(self.baud)),
                            delimiter: g.delimiter,
                            mapping: g.mapping,
                            score: g.score,
                        },
                    );
                }
            },
            None => {},
        }
        if self.baud + 1 < BAUD_COUNT {
            self.baud = self.baud + 1;
        } else {
            self.baud = 0;
            self.port = self.port + 1;
        }
    }

    /// Ends the sweep: the best trial, or the empty result where no trial
    /// gave data that scores above zero.
    pub fn finish(self) -> (r: AutodetectResult)
        ensures
            match self.best() {
                Some(b) => r == b,
                None => is_empty_result(r),
            },
    {
        match self.best {
            Some(b) => b,
            None => AutodetectResult {
                port: None,
                baud: None,
                delimiter: DEFAULT_DELIMITER,
                mapping: Vec::new(),
                score: Score::zero(),
            },
        }
    }
}

/// Starts a sweep over the listed ports. No trial is recorded yet and
/// nothing is found yet.
pub fn start_autodetect(ports: Vec<String>) -> (sweep: Autodetect)
    ensures
        sweep.ports() == ports@,
        sweep.done() == 0,
        sweep.best() is None,
{
    Autodetect { ports, port: 0, baud: 0, best: None }
}

} // verus!
