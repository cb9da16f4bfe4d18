use vstd::prelude::*;

verus! {

/// Whether the local player walks (and mines, places and drops items) or flies
/// freely through the world as a spectator.
#[derive(Debug, Clone, Copy, PartialEq, Eq, Structural)]
pub enum PlayMode {
    Survival,
    Spectator,
}

impl PlayMode {
    /// The label shown for the mode in the debug HUD.
    pub fn label(self) -> (r: &'static str)
        ensures
            self == PlayMode::Survival ==> r@ == "Survival"@,
            self == PlayMode::Spectator ==> r@ == "Spectator"@,
    {
        match self {
            PlayMode::Survival => "Survival",
            PlayMode::Spectator => "Spectator",
        }
    }
}

/// The play mode of the local client. A server keeps none, so that the
/// survival systems always run there.
#[derive(Debug, Clone, Copy)]
pub struct ActivePlayMode(pub PlayMode);

impl Default for ActivePlayMode {
    fn default() -> (r: Self)
        ensures
            r.0 == PlayMode::Survival,
    {
        ActivePlayMode(PlayMode::Survival)
    }
}

impl ActivePlayMode {
    /// The survival player simulation runs in survival mode only.
    pub fn allows_player_sim(self) -> (r: bool)
        ensures
            r <==> self.0 == PlayMode::Survival,
    {
        self.0 == PlayMode::Survival
    }
}

/// Whether the survival systems run, given the client's play mode if there is
/// one: they always run where no mode is kept (the server), and otherwise in
/// survival mode only.
pub fn survival_active(mode: Option<ActivePlayMode>) -> (r: bool)
    ensures
        r <==> match mode {
            None => true,
            Some(m) => m.0 == PlayMode::Survival,
        },
{
    match mode {
        None => true,
        Some(m) => m.allows_player_sim(),
    }
}

} // verus!
