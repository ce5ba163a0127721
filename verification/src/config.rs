//! The settings of a run and the minimums they have to meet.
//!
//! Lengths are whole pixels and speeds whole pixels per second, as they are
//! asked of the user. A setting below its minimum is an error: it is
//! reported, never raised to the minimum.

use vstd::prelude::*;

verus! {

/// Width of the window in pixels, unless the configuration says otherwise.
pub const WINDOW_WIDTH: u32 = 1200;

/// Height of the window in pixels, unless the configuration says otherwise.
pub const WINDOW_HEIGHT: u32 = 900;

/// Clean frames in a row after which a circle counts as stable, unless the
/// configuration says otherwise.
pub const STABLE_THRESHOLD: u32 = 500;

/// A push of fewer pixels than this does not count as a hit: it leaves the
/// streaks of both circles alone.
pub const HIT_TOLERANCE: u32 = 1;

/// A run needs at least this many circles.
pub const MINIMUM_CIRCLES: i32 = 1;

/// No circle is smaller than this radius, so that it can be seen; the largest
/// radius of a run may not be below it.
pub const MINIMUM_RADIUS: i32 = 5;

/// The largest initial speed of a run may not be below this.
pub const MINIMUM_SPEED: i32 = 1;

/// The setting that is below its minimum.
#[derive(Clone, Copy, Debug, PartialEq, Eq, Structural)]
pub enum ConfigError {
    /// Fewer circles than `MINIMUM_CIRCLES`.
    CircleCount,
    /// A largest radius below `MINIMUM_RADIUS`.
    MaxRadius,
    /// A largest initial speed below `MINIMUM_SPEED`.
    MaxInitialSpeed,
}

/// The settings of one run. They do not change while it lasts.
#[derive(Clone, Copy, Debug, PartialEq, Eq, Structural)]
pub struct SimulationConfig {
    /// Number of circles.
    pub circle_count: usize,
    /// Largest radius a circle may be given, in pixels.
    pub max_radius: i32,
    /// Largest speed along one axis that a circle may start with.
    pub max_initial_speed: i32,
    /// Clean frames in a row after which a circle counts as stable.
    pub stable_threshold: u32,
    /// Width of the window in pixels.
    pub width: u32,
    /// Height of the window in pixels.
    pub height: u32,
}

pub open spec fn spec_accepts_circle_count(n: i32) -> bool {
    n >= MINIMUM_CIRCLES
}

pub open spec fn spec_accepts_max_radius(radius: i32) -> bool {
    radius >= MINIMUM_RADIUS
}

pub open spec fn spec_accepts_max_speed(speed: i32) -> bool {
    speed >= MINIMUM_SPEED
}

/// Whether a run can have this many circles.
#[verifier::when_used_as_spec(spec_accepts_circle_count)]
pub fn accepts_circle_count(n: i32) -> (ok: bool)
    ensures
        ok == spec_accepts_circle_count(n),
{
    n >= MINIMUM_CIRCLES
}

/// Whether this can be the largest radius of a run.
#[verifier::when_used_as_spec(spec_accepts_max_radius)]
pub fn accepts_max_radius(radius: i32) -> (ok: bool)
    ensures
        ok == spec_accepts_max_radius(radius),
{
    radius >= MINIMUM_RADIUS
}

/// Whether this can be the largest initial speed of a run.
#[verifier::when_used_as_spec(spec_accepts_max_speed)]
pub fn accepts_max_speed(speed: i32) -> (ok: bool)
    ensures
        ok == spec_accepts_max_speed(speed),
{
    speed >= MINIMUM_SPEED
}

/// The first of three answers that is below its minimum, in the order in
/// which they are asked: circles, radius, speed.
pub open spec fn first_rejected(circles: i32, max_radius: i32, max_speed: i32) -> Option<
    ConfigError,
> {
    if !accepts_circle_count(circles) {
        Some(ConfigError::CircleCount)
    } else if !accepts_max_radius(max_radius) {
        Some(ConfigError::MaxRadius)
    } else if !accepts_max_speed(max_speed) {
        Some(ConfigError::MaxInitialSpeed)
    } else {
        None
    }
}

impl SimulationConfig {
    /// The first setting that is below its minimum, if any.
    pub open spec fn violation(self) -> Option<ConfigError> {
        if self.circle_count < MINIMUM_CIRCLES {
            Some(ConfigError::CircleCount)
        } else if !accepts_max_radius(self.max_radius) {
            Some(ConfigError::MaxRadius)
        } else if !accepts_max_speed(self.max_initial_speed) {
            Some(ConfigError::MaxInitialSpeed)
        } else {
            None
        }
    }

    /// Every setting meets its minimum.
    pub open spec fn valid(self) -> bool {
        self.violation() is None
    }

    /// The settings that three answers of the user stand for, with the
    /// default threshold and window.
    pub open spec fn of_answers(circles: i32, max_radius: i32, max_speed: i32) -> SimulationConfig {
        SimulationConfig {
            circle_count: circles as usize,
            max_radius,
            max_initial_speed: max_speed,
            stable_threshold: STABLE_THRESHOLD,
            width: WINDOW_WIDTH,
            height: WINDOW_HEIGHT,
        }
    }

    /// Turns the user's three answers into settings, or names the first one
    /// that is below its minimum.
    pub fn from_answers(circles: i32, max_radius: i32, max_speed: i32) -> (r: Result<
        SimulationConfig,
        ConfigError,
    >)
        ensures
            r == (match first_rejected(circles, max_radius, max_speed) {
                Some(e) => Err::<SimulationConfig, ConfigError>(e),
                None => Ok(Self::of_answers(circles, max_radius, max_speed)),
            }),
            r is Ok ==> r->Ok_0.valid() && r->Ok_0.circle_count == circles,
    {
        if !accepts_circle_count(circles) {
            Err(ConfigError::CircleCount)
        } else if !accepts_max_radius(max_radius) {
            Err(ConfigError::MaxRadius)
        } else if !accepts_max_speed(max_speed) {
            Err(ConfigError::MaxInitialSpeed)
        } else {
            Ok(
                SimulationConfig {
                    circle_count: circles as usize,
                    max_radius,
                    max_initial_speed: max_speed,
                    stable_threshold: STABLE_THRESHOLD,
                    width: WINDOW_WIDTH,
                    height: WINDOW_HEIGHT,
                },
            )
        }
    }

    /// Checks every setting against its minimum and names the first that
    /// fails.
    pub fn validate(&self) -> (r: Result<(), ConfigError>)
        ensures
            r == (match self.violation() {
                Some(e) => Err::<(), ConfigError>(e),
                None => Ok(()),
            }),
    {
        if self.circle_count < MINIMUM_CIRCLES as usize {
            Err(ConfigError::CircleCount)
        } else if !accepts_max_radius(self.max_radius) {
            Err(ConfigError::MaxRadius)
        } else if !accepts_max_speed(self.max_initial_speed) {
            Err(ConfigError::MaxInitialSpeed)
        } else {
            Ok(())
        }
    }
}

} // verus!
