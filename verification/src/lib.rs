//! Grid-based world simulation cores for two small games: a villager/farm
//! ecosystem and a ship/bullet shooter. Both are driven by the same pattern:
//! an entity store with sparse component tables, plus a tick-driven,
//! last-in-first-out event cascade that encodes the simulation rules.

pub mod bitter;
pub mod config;
pub mod queue;
pub mod render;
pub mod rng;
pub mod store;
pub mod tangy;

use vstd::prelude::*;

use crate::bitter::{coords_after_move, spec_coords_after_move, Direction};

verus! {

/// Single UI-selection marker with a grid position, moved by player input.
#[derive(Copy, Clone, PartialEq, Eq, Structural, Debug)]
pub struct Cursor {
    pub x: u8,
    pub y: u8,
}

impl Cursor {
    pub fn new() -> (c: Cursor)
        ensures
            c.x == 2,
            c.y == 2,
    {
        Cursor { x: 2, y: 2 }
    }

    /// The cursor after one step, clamped to the grid interior exactly as
    /// villager movement is.
    pub fn moved(self, direction: Direction) -> (c: Cursor)
        ensures
            (c.x, c.y) == spec_coords_after_move((self.x, self.y), direction),
    {
        let (x, y) = coords_after_move((self.x, self.y), direction);
        Cursor { x, y }
    }
}

/// Host-application window settings: a game name, an author name, and the
/// grid size in cells.
pub struct AppConfig {
    game_name: String,
    author_name: String,
    grid_dimensions: (u8, u8),
}

impl AppConfig {
    pub closed spec fn game_name_view(self) -> Seq<char> {
        self.game_name@
    }

    pub closed spec fn author_name_view(self) -> Seq<char> {
        self.author_name@
    }

    pub closed spec fn dims(self) -> (u8, u8) {
        self.grid_dimensions
    }

    pub fn new(grid_dimensions: (u8, u8)) -> (c: AppConfig)
        ensures
            c.game_name_view() == "A Sweet Turnips Game"@,
            c.author_name_view() == "Your Name Goes Here"@,
            c.dims() == grid_dimensions,
    {
        AppConfig {
            game_name: "A Sweet Turnips Game".to_owned(),
            author_name: "Your Name Goes Here".to_owned(),
            grid_dimensions,
        }
    }

    pub fn game_name(self, game_name: &str) -> (c: AppConfig)
        ensures
            c.game_name_view() == game_name@,
            c.author_name_view() == self.author_name_view(),
            c.dims() == self.dims(),
    {
        AppConfig { game_name: game_name.to_owned(), ..self }
    }

    pub fn author_name(self, author_name: &str) -> (c: AppConfig)
        ensures
            c.author_name_view() == author_name@,
            c.game_name_view() == self.game_name_view(),
            c.dims() == self.dims(),
    {
        AppConfig { author_name: author_name.to_owned(), ..self }
    }

    pub fn grid_dimensions(self, grid_dimensions: (u8, u8)) -> (c: AppConfig)
        ensures
            c.dims() == grid_dimensions,
            c.game_name_view() == self.game_name_view(),
            c.author_name_view() == self.author_name_view(),
    {
        AppConfig { grid_dimensions, ..self }
    }

    pub fn game_name_str(&self) -> (s: &str)
        ensures
            s@ == self.game_name_view(),
    {
        self.game_name.as_str()
    }

    pub fn author_name_str(&self) -> (s: &str)
        ensures
            s@ == self.author_name_view(),
    {
        self.author_name.as_str()
    }

    pub fn dims_pair(&self) -> (d: (u8, u8))
        ensures
            d == self.dims(),
    {
        self.grid_dimensions
    }
}

} // verus!
