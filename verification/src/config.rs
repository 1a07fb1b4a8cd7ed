//! Settings that are fixed for a whole run.

use vstd::prelude::*;

verus! {

/// The value that stands for 1.0 in a `Level`.
pub const LEVEL_SCALE: u16 = 1000;

/// Frames per second asked for when nothing else is said.
pub const DEFAULT_FPS: usize = 60;

/// Every how many pixels, along both axes, a cell is sampled by default.
pub const DEFAULT_SAMPLE_STEP: usize = 2;

/// Milliseconds to wait before asking again for a frame that was not ready.
pub const DEFAULT_BACKOFF_MILLIS: u64 = 15;

/// Milliseconds to wait after each update of the lights.
pub const DEFAULT_PACE_MILLIS: u64 = 60;

/// Why a setting was refused.
#[derive(Clone, Copy, Debug, PartialEq, Eq, Structural)]
pub enum ConfigError {
    /// Brightness is not within 0 and 1.
    BrightnessOutOfRange,
    /// Intensity is not within 0 and 1.
    IntensityOutOfRange,
    /// Zero frames per second.
    ZeroFps,
    /// A sampling step of zero pixels.
    ZeroSampleStep,
}

impl ConfigError {
    /// What to tell the user about the refused setting.
    pub fn message(&self) -> (m: &'static str)
        ensures
            m@ == match *self {
                ConfigError::BrightnessOutOfRange => "must be in range [0, 1]"@,
                ConfigError::IntensityOutOfRange => "must be in range [0, 1]"@,
                ConfigError::ZeroFps => "must be positive"@,
                ConfigError::ZeroSampleStep => "must be positive"@,
            },
    {
        match self {
            ConfigError::BrightnessOutOfRange => "must be in range [0, 1]",
            ConfigError::IntensityOutOfRange => "must be in range [0, 1]",
            ConfigError::ZeroFps => "must be positive",
            ConfigError::ZeroSampleStep => "must be positive",
        }
    }
}

/// A fraction between 0 and 1, held in thousandths.
#[derive(Clone, Copy, Debug, PartialEq, Eq, Structural)]
pub struct Level {
    pub thousandths: u16,
}

impl Level {
    /// The fraction does not exceed 1.
    pub open spec fn wf(&self) -> bool {
        self.thousandths <= LEVEL_SCALE
    }

    /// The level that stands for 1.0 and changes nothing.
    pub open spec fn full_level() -> Level {
        Level { thousandths: LEVEL_SCALE }
    }

    /// The level 1.0.
    pub fn full() -> (l: Level)
        ensures
            l == Level::full_level(),
            l.wf(),
    {
        Level { thousandths: 1000 }
    }

    /// Takes a number of thousandths as a level, or nothing when it lies
    /// outside 0 to 1000.
    pub fn from_thousandths(value: i64) -> (l: Option<Level>)
        ensures
            l.is_some() <==> 0 <= value <= LEVEL_SCALE,
            l.is_some() ==> l.unwrap().thousandths == value && l.unwrap().wf(),
    {
        if 0 <= value && value <= 1000 {
            Some(Level { thousandths: value as u16 })
        } else {
            None
        }
    }
}

/// The settings of one run.
#[derive(Clone, Copy, Debug)]
pub struct RunConfig {
    /// Scales the output before it is cut to the 8-bit range.
    pub brightness: Level,
    /// Scales the averaged input before the contrast curve.
    pub intensity: Level,
    /// Target frames per second.
    pub fps: usize,
    /// Which display to show; the primary one when absent.
    pub display: Option<usize>,
    /// Every how many pixels, along both axes, a cell is sampled.
    pub sample_step: usize,
    /// Milliseconds to wait before asking again for a frame that was not
    /// ready.
    pub backoff_millis: u64,
    /// Milliseconds to wait after each update of the lights.
    pub pace_millis: u64,
}

/// The first setting that is out of bounds, if any, in the order
/// brightness, intensity, frames per second.
pub open spec fn settings_fault(brightness: int, intensity: int, fps: int) -> Option<ConfigError> {
    if !(0 <= brightness <= LEVEL_SCALE) {
        Some(ConfigError::BrightnessOutOfRange)
    } else if !(0 <= intensity <= LEVEL_SCALE) {
        Some(ConfigError::IntensityOutOfRange)
    } else if fps <= 0 {
        Some(ConfigError::ZeroFps)
    } else {
        None
    }
}

impl RunConfig {
    /// Every setting is within its bounds.
    pub open spec fn wf(&self) -> bool {
        &&& self.brightness.wf()
        &&& self.intensity.wf()
        &&& self.fps >= 1
        &&& self.sample_step >= 1
    }

    /// The settings that `new` gives for inputs within bounds: the sampling
    /// step and both waits at their defaults.
    pub open spec fn with_defaults(
        brightness: int,
        intensity: int,
        fps: usize,
        display: Option<usize>,
    ) -> RunConfig {
        RunConfig {
            brightness: Level { thousandths: brightness as u16 },
            intensity: Level { thousandths: intensity as u16 },
            fps,
            display,
            sample_step: DEFAULT_SAMPLE_STEP,
            backoff_millis: DEFAULT_BACKOFF_MILLIS,
            pace_millis: DEFAULT_PACE_MILLIS,
        }
    }

    /// Checks the settings given at startup. Brightness and intensity come in
    /// thousandths.
    pub fn new(brightness: i64, intensity: i64, fps: usize, display: Option<usize>) -> (r: Result<
        RunConfig,
        ConfigError,
    >)
        ensures
            match settings_fault(brightness as int, intensity as int, fps as int) {
                Some(e) => r == Err::<RunConfig, ConfigError>(e),
                None => r == Ok::<RunConfig, ConfigError>(
                    RunConfig::with_defaults(brightness as int, intensity as int, fps, display),
                ),
            },
            r.is_ok() ==> r.unwrap().wf(),
    {
        let brightness = match Level::from_thousandths(brightness) {
            Some(l) => l,
            None => {
                return Err(ConfigError::BrightnessOutOfRange);
            },
        };
        let intensity = match Level::from_thousandths(intensity) {
            Some(l) => l,
            None => {
                return Err(ConfigError::IntensityOutOfRange);
            },
        };
        if fps == 0 {
            return Err(ConfigError::ZeroFps);
        }
        Ok(
            RunConfig {
                brightness,
                intensity,
                fps,
                display,
                sample_step: 2,
                backoff_millis: 15,
                pace_millis: 60,
            },
        )
    }

    /// The same settings with another sampling step.
    pub fn with_sample_step(self, step: usize) -> (r: Result<RunConfig, ConfigError>)
        ensures
            step == 0 ==> r == Err::<RunConfig, ConfigError>(ConfigError::ZeroSampleStep),
            step >= 1 ==> r == Ok::<RunConfig, ConfigError>(
                RunConfig { sample_step: step, ..self },
            ),
            step >= 1 && self.wf() ==> r.unwrap().wf(),
    {
        if step == 0 {
            Err(ConfigError::ZeroSampleStep)
        } else {
            Ok(RunConfig { sample_step: step, ..self })
        }
    }

    /// The same settings with other waits.
    pub fn with_waits(self, backoff_millis: u64, pace_millis: u64) -> (c: RunConfig)
        ensures
            c == (RunConfig { backoff_millis, pace_millis, ..self }),
            self.wf() ==> c.wf(),
    {
        RunConfig { backoff_millis, pace_millis, ..self }
    }

    /// Milliseconds per frame at the target rate, rounded down.
    pub fn frame_interval_millis(&self) -> (ms: u64)
        requires
            self.wf(),
        ensures
            ms as int == 1000int / (self.fps as int),
    {
        (1000 / self.fps) as u64
    }
}

impl Default for RunConfig {
    /// Full brightness and intensity, the default rate, the primary display.
    fn default() -> (c: RunConfig)
        ensures
            c == RunConfig::with_defaults(
                LEVEL_SCALE as int,
                LEVEL_SCALE as int,
                DEFAULT_FPS,
                None,
            ),
            c.wf(),
    {
        RunConfig {
            brightness: Level { thousandths: 1000 },
            intensity: Level { thousandths: 1000 },
            fps: 60,
            display: None,
            sample_step: 2,
            backoff_millis: 15,
            pace_millis: 60,
        }
    }
}

} // verus!
