use vstd::prelude::*;

verus! {

/// Which role this process plays in the simulation.
#[derive(Debug, Clone, Copy, PartialEq, Eq, Structural)]
pub enum SimulationMode {
    Local,
    AuthoritativeServer,
    NetworkClient,
}

impl Default for SimulationMode {
    fn default() -> (r: Self)
        ensures
            r == SimulationMode::Local,
    {
        SimulationMode::Local
    }
}

/// The local player of a network client: the id the server assigned (none
/// until it did) and whether its entity has been spawned.
#[derive(Debug, Clone, Copy, Default)]
pub struct LocalPlayer {
    pub id: Option<u32>,
    pub spawned: bool,
}

/// The local client's assigned network player id (none until the server's
/// welcome in network mode).
#[derive(Debug, Clone, Copy, Default)]
pub struct LocalPlayerId {
    pub id: Option<u32>,
    pub spawned: bool,
}

/// What the player-spawn system does this tick.
#[derive(Debug, Clone, Copy, PartialEq, Eq, Structural)]
pub enum SpawnAction {
    /// Nothing to spawn.
    Wait,
    /// Spawn the network player with this id and mark the local player spawned.
    SpawnNetworkPlayer(u32),
    /// Spawn the single player of a local game, under id 0.
    SpawnLocalPlayer,
}

/// The spawn decision: nothing before the world is initialized or on the
/// server; a network client spawns its own player once it has an id and has
/// not spawned yet; a local game spawns player 0 when there is no player.
pub open spec fn spawn_decision(
    world_initialized: bool,
    mode: Option<SimulationMode>,
    local: Option<LocalPlayer>,
    player_exists: bool,
) -> SpawnAction {
    let m = match mode {
        Some(m) => m,
        None => SimulationMode::Local,
    };
    if !world_initialized || m == SimulationMode::AuthoritativeServer {
        SpawnAction::Wait
    } else if m == SimulationMode::NetworkClient {
        match local {
            Some(LocalPlayer { id: Some(id), spawned: false }) => SpawnAction::SpawnNetworkPlayer(id),
            _ => SpawnAction::Wait,
        }
    } else if player_exists {
        SpawnAction::Wait
    } else {
        SpawnAction::SpawnLocalPlayer
    }
}

/// Decides what the player-spawn system does this tick (see `spawn_decision`).
pub fn player_spawn_action(
    world_initialized: bool,
    mode: Option<SimulationMode>,
    local: Option<LocalPlayer>,
    player_exists: bool,
) -> (r: SpawnAction)
    ensures
        r == spawn_decision(world_initialized, mode, local, player_exists),
{
    if !world_initialized {
        return SpawnAction::Wait;
    }
    let mode = match mode {
        Some(m) => m,
        None => SimulationMode::Local,
    };
    match mode {
        SimulationMode::AuthoritativeServer => SpawnAction::Wait,
        SimulationMode::NetworkClient => {
            let local = match local {
                Some(local) => local,
                None => {
                    return SpawnAction::Wait;
                },
            };
            if local.spawned {
                return SpawnAction::Wait;
            }
            match local.id {
                Some(id) => SpawnAction::SpawnNetworkPlayer(id),
                None => SpawnAction::Wait,
            }
        },
        SimulationMode::Local => if player_exists {
            SpawnAction::Wait
        } else {
            SpawnAction::SpawnLocalPlayer
        },
    }
}

/// Whether a player with network id `player_id` is among the spawned ones
/// (a second spawn of the same id is skipped).
pub fn net_player_spawned(spawned_ids: &Vec<u32>, player_id: u32) -> (r: bool)
    ensures
        r == spawned_ids@.contains(player_id),
{
    let mut index: usize = 0;
    while index < spawned_ids.len()
        invariant
            index <= spawned_ids@.len(),
            forall|j: int| 0 <= j < index ==> spawned_ids@[j] != player_id,
        decreases spawned_ids.len() - index,
    {
        if spawned_ids[index] == player_id {
            return true;
        }
        index = index + 1;
    }
    false
}

/// A network client spawns its player at most once: the decision spawns the
/// player with the assigned id, and once the local player is marked spawned it
/// waits; a local game spawns only while no player exists.
pub proof fn law_player_spawns_once(id: u32, player_exists: bool)
    ensures
        spawn_decision(
            true,
            Some(SimulationMode::NetworkClient),
            Some(LocalPlayer { id: Some(id), spawned: false }),
            player_exists,
        ) == SpawnAction::SpawnNetworkPlayer(id),
        spawn_decision(
            true,
            Some(SimulationMode::NetworkClient),
            Some(LocalPlayer { id: Some(id), spawned: true }),
            player_exists,
        ) == SpawnAction::Wait,
        spawn_decision(true, Some(SimulationMode::Local), None, true) == SpawnAction::Wait,
        spawn_decision(true, None, None, false) == SpawnAction::SpawnLocalPlayer,
{
}

/// The network id whose input drives a player: its own network id when it
/// has one, otherwise the local player's assigned id.
pub fn input_player_id(net_id: Option<u32>, local: Option<LocalPlayerId>) -> (r: Option<u32>)
    ensures
        r == (match net_id {
            Some(id) => Some(id),
            None => match local {
                Some(l) => l.id,
                None => None,
            },
        }),
{
    match net_id {
        Some(id) => Some(id),
        None => match local {
            Some(l) => l.id,
            None => None,
        },
    }
}

/// The network id assigned to the local player, if any.
pub open spec fn assigned_id(local: Option<LocalPlayerId>) -> Option<u32> {
    match local {
        Some(l) => l.id,
        None => None,
    }
}

/// The entity of the local player. With an assigned id it is the first player
/// carrying that network id (none if no player carries it); without one, the
/// first player entity. `net_players` lists the players with network ids and
/// `players` all player entities, in the world's order.
pub fn local_player_entity(
    local: Option<LocalPlayerId>,
    net_players: &Vec<(hecs::Entity, u32)>,
    players: &Vec<hecs::Entity>,
) -> (r: Option<hecs::Entity>)
    ensures
        assigned_id(local) matches Some(id) ==> match r {
            Some(e) => exists|k: int|
                #![trigger net_players@[k]]
                0 <= k < net_players@.len() && net_players@[k] == (e, id) && forall|j: int|
                    0 <= j < k ==> #[trigger] net_players@[j].1 != id,
            None => forall|j: int| 0 <= j < net_players@.len() ==> #[trigger] net_players@[j].1 != id,
        },
        assigned_id(local) is None ==> r == (if players@.len() > 0 {
            Some(players@[0])
        } else {
            None
        }),
{
    let local_id = match local {
        Some(l) => l.id,
        None => None,
    };
    match local_id {
        Some(id) => {
            let mut index: usize = 0;
            while index < net_players.len()
                invariant
                    index <= net_players@.len(),
                    assigned_id(local) == Some(id),
                    forall|j: int| 0 <= j < index ==> #[trigger] net_players@[j].1 != id,
                decreases net_players.len() - index,
            {
                let (entity, player_id) = net_players[index];
                if player_id == id {
                    assert(net_players@[index as int] == (entity, id));
                    return Some(entity);
                }
                index = index + 1;
            }
            None
        },
        None => if players.len() > 0 {
            Some(players[0])
        } else {
            None
        },
    }
}

} // verus!
