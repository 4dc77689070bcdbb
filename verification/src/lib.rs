//! Game rules of a rocket-company tycoon: calendar, engine cycles, design lineages and
//! workflow phases, launch sequencing, flaws, the Earth-Moon delta-v map with mission
//! plans and flights, launch manifests, manufacturing orders and inventories, teams, and event
//! logs.

pub mod balance;
pub mod calendar;
pub mod text;
pub mod engine_design;
pub mod design_lineage;
pub mod design_phase;
pub mod launcher;
pub mod propellant;
pub mod resources;
pub mod flaw;
pub mod game_state;
pub mod contract;
pub mod engine;
pub mod flight_state;
pub mod event;
pub mod location;
pub mod mission_plan;
pub mod manifest;
pub mod rocket_design;
pub mod manufacturing;
pub mod inventory;
pub mod orders;
pub mod launch_site;
pub mod team;
pub mod flaw_book;
pub mod mission_desk;
