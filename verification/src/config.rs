//! What a run is told before it starts: how many downloads may run at once,
//! how far apart they start, and what is done with the bytes.

use vstd::prelude::*;

verus! {

/// The delay between two starts where none is asked for, in milliseconds.
pub const DEFAULT_THROTTLE_MS: u64 = 200;

/// The number of downloads at once where the machine does not tell how many
/// threads it can run.
pub const FALLBACK_CONCURRENCY: usize = 4;

/// What a download does with the bytes it receives.
#[derive(Clone, Copy, Debug, PartialEq, Eq, Structural)]
pub enum Mode {
    /// The bytes are written as they arrive.
    RawCompressed,
    /// The bytes are decompressed and then written.
    RawDecompressed,
    /// The bytes are decompressed and written, and the file is then written
    /// once more as comma-delimited text.
    Transcoded,
}

/// Why the settings of a run are refused.
#[derive(Clone, Copy, Debug, PartialEq, Eq, Structural)]
pub enum ConfigError {
    /// Comma-delimited output was asked for without decompression.
    TranscodeWithoutDecompress,
    /// No download could ever start.
    ZeroConcurrency,
}

/// The mode that the two switches ask for.
pub open spec fn mode_for(decompress: bool, transcode: bool) -> Result<Mode, ConfigError> {
    if transcode && !decompress {
        Err(ConfigError::TranscodeWithoutDecompress)
    } else if transcode {
        Ok(Mode::Transcoded)
    } else if decompress {
        Ok(Mode::RawDecompressed)
    } else {
        Ok(Mode::RawCompressed)
    }
}

/// The settings that `RunConfig::new` makes of its arguments.
pub open spec fn checked_settings(
    concurrency: usize,
    throttle_ms: u64,
    decompress: bool,
    transcode: bool,
) -> Result<Settings, ConfigError> {
    match mode_for(decompress, transcode) {
        Err(e) => Err(e),
        Ok(mode) => if concurrency == 0 {
            Err(ConfigError::ZeroConcurrency)
        } else {
            Ok(Settings { concurrency, throttle_ms, mode })
        },
    }
}

/// The settings of a run, as plain values.
pub ghost struct Settings {
    pub concurrency: usize,
    pub throttle_ms: u64,
    pub mode: Mode,
}

/// The settings of a run. They do not change while it runs, and at least one
/// download may run at once.
#[derive(Clone, Copy, Debug)]
pub struct RunConfig {
    concurrency: usize,
    throttle_ms: u64,
    mode: Mode,
}

impl View for RunConfig {
    type V = Settings;

    closed spec fn view(&self) -> Settings {
        Settings { concurrency: self.concurrency, throttle_ms: self.throttle_ms, mode: self.mode }
    }
}

/// The mode that the two switches ask for.
pub fn mode_of(decompress: bool, transcode: bool) -> (r: Result<Mode, ConfigError>)
    ensures
        r == mode_for(decompress, transcode),
{
    if transcode && !decompress {
        Err(ConfigError::TranscodeWithoutDecompress)
    } else if transcode {
        Ok(Mode::Transcoded)
    } else if decompress {
        Ok(Mode::RawDecompressed)
    } else {
        Ok(Mode::RawCompressed)
    }
}

/// The number of downloads at once where none is asked for: as many as the
/// machine runs threads, where it tells.
pub fn default_concurrency(available: Option<usize>) -> (n: usize)
    ensures
        n == match available {
            Some(threads) => threads,
            None => FALLBACK_CONCURRENCY,
        },
{
    match available {
        Some(threads) => threads,
        None => FALLBACK_CONCURRENCY,
    }
}

impl RunConfig {
    #[verifier::type_invariant]
    spec fn valid(self) -> bool {
        self.concurrency > 0
    }

    /// Checks the settings of a run.
    pub fn new(concurrency: usize, throttle_ms: u64, decompress: bool, transcode: bool) -> (r:
        Result<RunConfig, ConfigError>)
        ensures
            match r {
                Ok(config) => checked_settings(concurrency, throttle_ms, decompress, transcode)
                    == Ok::<Settings, ConfigError>(config@),
                Err(e) => checked_settings(concurrency, throttle_ms, decompress, transcode)
                    == Err::<Settings, ConfigError>(e),
            },
    {
        let mode = match mode_of(decompress, transcode) {
            Ok(mode) => mode,
            Err(e) => {
                return Err(e);
            },
        };
        if concurrency == 0 {
            return Err(ConfigError::ZeroConcurrency);
        }
        Ok(RunConfig { concurrency, throttle_ms, mode })
    }

    /// How many downloads may run at once: at least one.
    pub fn concurrency(&self) -> (n: usize)
        ensures
            n == self@.concurrency,
            n > 0,
    {
        proof {
            use_type_invariant(self);
        }
        self.concurrency
    }

    /// The least time between two starts, in milliseconds.
    pub fn throttle_ms(&self) -> (ms: u64)
        ensures
            ms == self@.throttle_ms,
    {
        self.throttle_ms
    }

    /// What a download does with its bytes.
    pub fn mode(&self) -> (mode: Mode)
        ensures
            mode == self@.mode,
    {
        self.mode
    }
}

} // verus!
