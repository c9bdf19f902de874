//! The integer and on/off settings of the ray tracer: Monte Carlo sampling,
//! samples per pixel, recursion depth and gamma correction, how a scene
//! file's settings are read into them, and how one set of settings is laid
//! over another.

use vstd::prelude::*;

verus! {

/// The integer and on/off settings of the ray tracer.
#[derive(PartialEq, Eq, Structural, Clone, Copy, Debug)]
pub struct RaytracingConfig {
    pub monte_carlo: bool,
    /// Samples per pixel; this includes anti-aliasing.
    pub samples: u16,
    pub max_recursion: u16,
    pub gamma_correction: bool,
}

/// The defaults: no Monte Carlo sampling, one sample, recursion depth 6,
/// no gamma correction.
pub open spec fn default_config() -> RaytracingConfig {
    RaytracingConfig { monte_carlo: false, samples: 1, max_recursion: 6, gamma_correction: false }
}

/// `c` with every setting of `n` that differs from the default taken over.
pub open spec fn apply_spec(c: RaytracingConfig, n: RaytracingConfig) -> RaytracingConfig {
    let d = default_config();
    RaytracingConfig {
        monte_carlo: if n.monte_carlo != d.monte_carlo {
            n.monte_carlo
        } else {
            c.monte_carlo
        },
        samples: if n.samples != d.samples {
            n.samples
        } else {
            c.samples
        },
        max_recursion: if n.max_recursion != d.max_recursion {
            n.max_recursion
        } else {
            c.max_recursion
        },
        gamma_correction: if n.gamma_correction != d.gamma_correction {
            n.gamma_correction
        } else {
            c.gamma_correction
        },
    }
}

/// The settings a scene file gives, each where it is present: booleans as
/// they are, numbers cut to their low 16 bits.
pub open spec fn read_json_spec(
    c: RaytracingConfig,
    monte_carlo: Option<bool>,
    samples: Option<u64>,
    max_recursion: Option<u64>,
    gamma_correction: Option<bool>,
) -> RaytracingConfig {
    RaytracingConfig {
        monte_carlo: match monte_carlo {
            Some(b) => b,
            None => c.monte_carlo,
        },
        samples: match samples {
            Some(v) => v as u16,
            None => c.samples,
        },
        max_recursion: match max_recursion {
            Some(v) => v as u16,
            None => c.max_recursion,
        },
        gamma_correction: match gamma_correction {
            Some(b) => b,
            None => c.gamma_correction,
        },
    }
}

impl RaytracingConfig {
    /// The defaults (see `default_config`).
    pub fn new() -> (c: RaytracingConfig)
        ensures
            c == default_config(),
    {
        RaytracingConfig { monte_carlo: false, samples: 1, max_recursion: 6, gamma_correction: false }
    }

    /// Takes over every setting of `new_config` that differs from the
    /// default.
    pub fn apply(&mut self, new_config: RaytracingConfig)
        ensures
            *final(self) == apply_spec(*old(self), new_config),
    {
        let d = RaytracingConfig::new();
        if d.monte_carlo != new_config.monte_carlo {
            self.monte_carlo = new_config.monte_carlo;
        }
        if d.samples != new_config.samples {
            self.samples = new_config.samples;
        }
        if d.max_recursion != new_config.max_recursion {
            self.max_recursion = new_config.max_recursion;
        }
        if d.gamma_correction != new_config.gamma_correction {
            self.gamma_correction = new_config.gamma_correction;
        }
    }

    /// Reads the settings of a scene file's `config` section, each given
    /// where the file has it (see `read_json_spec`).
    pub fn read_json(
        &mut self,
        monte_carlo: Option<bool>,
        samples: Option<u64>,
        max_recursion: Option<u64>,
        gamma_correction: Option<bool>,
    )
        ensures
            *final(self) == read_json_spec(
                *old(self),
                monte_carlo,
                samples,
                max_recursion,
                gamma_correction,
            ),
    {
        if let Some(b) = monte_carlo {
            self.monte_carlo = b;
        }
        if let Some(v) = samples {
            self.samples = v as u16;
        }
        if let Some(v) = max_recursion {
            self.max_recursion = v as u16;
        }
        if let Some(b) = gamma_correction {
            self.gamma_correction = b;
        }
    }
}

/// Laying the defaults over settings changes nothing, laying the same
/// settings over twice is the same as once, and laying settings over the
/// defaults gives those settings.
pub proof fn lemma_apply_laws(c: RaytracingConfig, n: RaytracingConfig)
    ensures
        apply_spec(c, default_config()) == c,
        apply_spec(apply_spec(c, n), n) == apply_spec(c, n),
        apply_spec(default_config(), n) == n,
{
}

} // verus!
