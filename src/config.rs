//! The window manager's settings: the modifier that every combination is
//! grabbed with, and the named key combinations with the program each one
//! launches.
use vstd::prelude::*;

verus! {

/// A modifier key of the X11 core protocol.
#[derive(Debug, Clone, Copy, PartialEq, Eq, Structural)]
pub enum Modifier {
    CTRL,
    SHIFT,
    LOCK,
    M1,
    M2,
    M3,
    M4,
    M5,
}

/// The bit that the X11 core protocol gives to each modifier in a key mask.
pub open spec fn mask_of(m: Modifier) -> u16 {
    match m {
        Modifier::SHIFT => 1,
        Modifier::LOCK => 2,
        Modifier::CTRL => 4,
        Modifier::M1 => 8,
        Modifier::M2 => 16,
        Modifier::M3 => 32,
        Modifier::M4 => 64,
        Modifier::M5 => 128,
    }
}

impl Modifier {
    /// The modifier's bit in an X11 key mask.
    pub fn mask(self) -> (r: u16)
        ensures
            r == mask_of(self),
    {
        match self {
            Modifier::SHIFT => 1,
            Modifier::LOCK => 2,
            Modifier::CTRL => 4,
            Modifier::M1 => 8,
            Modifier::M2 => 16,
            Modifier::M3 => 32,
            Modifier::M4 => 64,
            Modifier::M5 => 128,
        }
    }
}

impl Default for Modifier {
    /// Mod1, the Alt key on most layouts.
    fn default() -> (r: Modifier)
        ensures
            r == Modifier::M1,
    {
        Modifier::M1
    }
}

/// A combination as configured: the characters of its keys, in press order,
/// and the command it launches (the program, then its arguments).
#[derive(Debug)]
pub struct ConfigCombo {
    keys: Vec<String>,
    spawn: Vec<String>,
}

impl ConfigCombo {
    /// The key strings, in press order.
    pub closed spec fn spec_keys(&self) -> Seq<String> {
        self.keys@
    }

    /// The program and its arguments.
    pub closed spec fn spec_spawn(&self) -> Seq<String> {
        self.spawn@
    }

    /// A combination of `keys` that launches `spawn`.
    pub fn new(keys: Vec<String>, spawn: Vec<String>) -> (r: ConfigCombo)
        ensures
            r.spec_keys() == keys@,
            r.spec_spawn() == spawn@,
    {
        ConfigCombo { keys, spawn }
    }

    /// The characters of the keys, one string each, in press order.
    pub fn keys(&self) -> (r: &[String])
        ensures
            r@ == self.spec_keys(),
    {
        self.keys.as_slice()
    }

    /// The program to launch, followed by its arguments.
    pub fn spawn(&self) -> (r: &[String])
        ensures
            r@ == self.spec_spawn(),
    {
        self.spawn.as_slice()
    }
}

/// Settings that concern the whole window manager.
#[derive(Debug)]
pub struct FlowConfig {
    modifier: Modifier,
}

impl FlowConfig {
    /// The configured modifier.
    pub closed spec fn spec_modifier(&self) -> Modifier {
        self.modifier
    }

    /// Settings that grab combinations with `modifier`.
    pub fn new(modifier: Modifier) -> (r: FlowConfig)
        ensures
            r.spec_modifier() == modifier,
    {
        FlowConfig { modifier }
    }

    /// The modifier that every combination is grabbed with.
    pub fn modifier(&self) -> (r: Modifier)
        ensures
            r == self.spec_modifier(),
    {
        self.modifier
    }
}

impl Default for FlowConfig {
    fn default() -> (r: FlowConfig)
        ensures
            r.spec_modifier() == Modifier::M1,
    {
        FlowConfig { modifier: Modifier::M1 }
    }
}

/// The whole configuration: the global settings and the named combinations,
/// in the order they were written. Where two combinations resolve to the same
/// keys, the later one wins.
#[derive(Debug)]
pub struct Config {
    flow: FlowConfig,
    combos: Vec<(String, ConfigCombo)>,
}

impl Config {
    /// The configured global settings.
    pub closed spec fn spec_flow(&self) -> FlowConfig {
        self.flow
    }

    /// The configured combinations, with their names.
    pub closed spec fn spec_combos(&self) -> Seq<(String, ConfigCombo)> {
        self.combos@
    }

    /// A configuration of `flow` and the named `combos`.
    pub fn new(flow: FlowConfig, combos: Vec<(String, ConfigCombo)>) -> (r: Config)
        ensures
            r.spec_flow() == flow,
            r.spec_combos() == combos@,
    {
        Config { flow, combos }
    }

    /// The global settings.
    pub fn flow(&self) -> (r: &FlowConfig)
        ensures
            *r == self.spec_flow(),
    {
        &self.flow
    }

    /// The named combinations, in the order they were written.
    pub fn combos(&self) -> (r: &Vec<(String, ConfigCombo)>)
        ensures
            r@ == self.spec_combos(),
    {
        &self.combos
    }
}

impl Default for Config {
    /// Mod1 as the modifier, and no combination.
    fn default() -> (r: Config)
        ensures
            r.spec_flow().spec_modifier() == Modifier::M1,
            r.spec_combos().len() == 0,
    {
        Config { flow: FlowConfig { modifier: Modifier::M1 }, combos: Vec::new() }
    }
}

} // verus!
