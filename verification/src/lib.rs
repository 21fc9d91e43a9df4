//! Coordination core for a fleet of search agents: a mothership splits a
//! rectangular mission area among its minions, follows their reports, and
//! plans a tour over the points of interest they found.

pub mod coordinate;
pub mod grid;
pub mod minion;
pub mod mothership;
pub mod partition;
pub mod peer;
pub mod route;
pub mod stream;

pub use coordinate::Coordinate;
pub use grid::Grid;
pub use minion::{
    DelegateTaskMessage, Delegation, MinionEvent, MinionHeartbeat, MinionState, Reports,
};
pub use partition::split_mission_area;
pub use mothership::{DelegateTasks, Minion, MissionStatus, MothershipState};
pub use peer::MinionId;
pub use route::{nearest_index, next_hop, plan_route, RouteDriver, RouteEvent};
pub use stream::SharedState;
