//! Setup configurations, consumed once when a game begins.

use vstd::prelude::*;

verus! {

/// A setup configuration: the number of players, the clusters that stay out of
/// play, and the three location lists that assign starting cities, starports
/// and free units to the players in seating order.
#[derive(Clone, Debug, PartialEq, Eq)]
pub struct SetupCard {
    pub players: u8,
    pub cluster_out_of_play: Vec<u8>,
    pub a_locations: Vec<u8>,
    pub b_locations: Vec<u8>,
    pub c_locations: Vec<u8>,
}

/// The frontiers setup for two players.
pub fn two_player_frontiers() -> (r: SetupCard)
    ensures
        r.players == 2,
        r.cluster_out_of_play@ == seq![0u8, 5u8],
        r.a_locations@ == seq![20u8, 12u8],
        r.b_locations@ == seq![17u8, 18u8],
        r.c_locations@ == seq![2u8, 4u8, 14u8, 15u8],
{
    let mut cluster_out_of_play: Vec<u8> = Vec::new();
    cluster_out_of_play.push(0);
    cluster_out_of_play.push(5);
    let mut a_locations: Vec<u8> = Vec::new();
    a_locations.push(20);
    a_locations.push(12);
    let mut b_locations: Vec<u8> = Vec::new();
    b_locations.push(17);
    b_locations.push(18);
    let mut c_locations: Vec<u8> = Vec::new();
    c_locations.push(2);
    c_locations.push(4);
    c_locations.push(14);
    c_locations.push(15);
    proof {
        assert(cluster_out_of_play@ =~= seq![0u8, 5u8]);
        assert(a_locations@ =~= seq![20u8, 12u8]);
        assert(b_locations@ =~= seq![17u8, 18u8]);
        assert(c_locations@ =~= seq![2u8, 4u8, 14u8, 15u8]);
    }
    SetupCard { players: 2, cluster_out_of_play, a_locations, b_locations, c_locations }
}

} // verus!
