//! The daemon's configuration and the conditions it has to meet.

use vstd::prelude::*;
use crate::message::texts;

verus! {

/// What the daemon is told once, at startup.
#[derive(Debug, Clone)]
pub struct Config {
    /// The feeds to poll, in the order in which they are requested.
    pub names: Vec<String>,
    /// How many fetches may be outstanding at once.
    pub concurrent_requests: usize,
    /// How many pin requests may be outstanding at once.
    pub concurrent_pins: usize,
    /// The time from the start of one polling cycle to the start of the next.
    pub interval_ms: u64,
    pub pin_snaphash: bool,
    pub pin_spritehash: bool,
    pub pin_videohash: bool,
    pub pin_video480hash: bool,
}

/// What a `Config` holds.
pub struct ConfigView {
    pub names: Seq<Seq<char>>,
    pub concurrent_requests: nat,
    pub concurrent_pins: nat,
    pub interval_ms: nat,
    pub pin_snaphash: bool,
    pub pin_spritehash: bool,
    pub pin_videohash: bool,
    pub pin_video480hash: bool,
}

impl View for Config {
    type V = ConfigView;

    open spec fn view(&self) -> ConfigView {
        ConfigView {
            names: texts(self.names@),
            concurrent_requests: self.concurrent_requests as nat,
            concurrent_pins: self.concurrent_pins as nat,
            interval_ms: self.interval_ms as nat,
            pin_snaphash: self.pin_snaphash,
            pin_spritehash: self.pin_spritehash,
            pin_videohash: self.pin_videohash,
            pin_video480hash: self.pin_video480hash,
        }
    }
}

/// Why a configuration cannot be run.
#[derive(Debug, Clone, Copy, PartialEq, Eq, Structural)]
pub enum ConfigError {
    /// The feed name at this position is empty.
    EmptyFeedName(usize),
    /// No fetch could ever be dispatched.
    NoConcurrentRequests,
    /// No pin request could ever be dispatched.
    NoConcurrentPins,
    /// The polling interval is zero.
    NoInterval,
}

impl ConfigView {
    /// The position of the first empty feed name among the first `upto`, or `upto`.
    pub open spec fn first_empty_name(self, upto: int) -> int
        decreases upto,
    {
        if upto <= 0 {
            0
        } else {
            let before = self.first_empty_name(upto - 1);
            if before < upto - 1 {
                before
            } else if self.names[upto - 1].len() == 0 {
                upto - 1
            } else {
                upto
            }
        }
    }

    /// The first condition that the configuration fails, if it fails one:
    /// feed names are checked first, then the two limits, then the interval.
    pub open spec fn defect(self) -> Option<ConfigError> {
        let at = self.first_empty_name(self.names.len() as int);
        if at < self.names.len() {
            Some(ConfigError::EmptyFeedName(at as usize))
        } else if self.concurrent_requests == 0 {
            Some(ConfigError::NoConcurrentRequests)
        } else if self.concurrent_pins == 0 {
            Some(ConfigError::NoConcurrentPins)
        } else if self.interval_ms == 0 {
            Some(ConfigError::NoInterval)
        } else {
            None
        }
    }

    /// Every feed name is non-empty, both limits are at least one and the
    /// interval is positive.
    pub open spec fn valid(self) -> bool {
        &&& forall|i: int| 0 <= i < self.names.len() ==> (#[trigger] self.names[i]).len() > 0
        &&& self.concurrent_requests >= 1
        &&& self.concurrent_pins >= 1
        &&& self.interval_ms > 0
    }

    /// `first_empty_name` is the least position of an empty name below `upto`.
    pub proof fn lemma_first_empty_name(self, upto: int)
        requires
            0 <= upto <= self.names.len(),
        ensures
            0 <= self.first_empty_name(upto) <= upto,
            forall|i: int|
                0 <= i < self.first_empty_name(upto) ==> (#[trigger] self.names[i]).len() > 0,
            self.first_empty_name(upto) < upto ==> self.names[self.first_empty_name(
                upto,
            )].len() == 0,
        decreases upto,
    {
        if upto > 0 {
            self.lemma_first_empty_name(upto - 1);
        }
    }

    /// An empty name at `at` with none before it is still the first one
    /// when more names are considered.
    pub proof fn lemma_empty_name_found(self, at: int, upto: int)
        requires
            0 <= at < upto <= self.names.len(),
            self.first_empty_name(at) == at,
            self.names[at].len() == 0,
        ensures
            self.first_empty_name(upto) == at,
        decreases upto,
    {
        if upto > at + 1 {
            self.lemma_empty_name_found(at, upto - 1);
        }
    }

    /// A configuration is valid exactly when it has no defect.
    pub proof fn lemma_valid_iff_no_defect(self)
        ensures
            self.valid() <==> self.defect().is_none(),
    {
        self.lemma_first_empty_name(self.names.len() as int);
    }
}

impl Config {
    /// Checks the configuration and names the first condition it fails.
    pub fn validate(&self) -> (r: Result<(), ConfigError>)
        ensures
            r.is_ok() <==> self@.valid(),
            r.is_err() ==> self@.defect() == Some(r.unwrap_err()),
    {
        let mut i: usize = 0;
        while i < self.names.len()
            invariant
                0 <= i <= self.names.len(),
                self@.first_empty_name(i as int) == i,
            decreases self.names.len() - i,
        {
            let empty = self.names[i].as_str().is_empty();
            assert(self@.names[i as int] == self.names@[i as int]@);
            if empty {
                proof {
                    self@.lemma_empty_name_found(i as int, self.names.len() as int);
                    self@.lemma_valid_iff_no_defect();
                }
                return Err(ConfigError::EmptyFeedName(i));
            }
            i += 1;
        }
        proof {
            self@.lemma_valid_iff_no_defect();
        }
        if self.concurrent_requests == 0 {
            Err(ConfigError::NoConcurrentRequests)
        } else if self.concurrent_pins == 0 {
            Err(ConfigError::NoConcurrentPins)
        } else if self.interval_ms == 0 {
            Err(ConfigError::NoInterval)
        } else {
            Ok(())
        }
    }
}

} // verus!
