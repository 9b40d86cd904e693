use vstd::prelude::*;

pub mod frame;
pub mod scene;

verus! {

/// Window and rendering settings of a game instance.
#[derive(Debug, Clone)]
pub struct GameConfig {
    pub game_name: String,
    pub window_width: u32,
    pub window_height: u32,
    pub render_scale: u32,
}

impl GameConfig {
    /// The offscreen render resolution: the window size times the render scale.
    pub open spec fn spec_render_width(&self) -> int {
        self.window_width * self.render_scale
    }

    pub open spec fn spec_render_height(&self) -> int {
        self.window_height * self.render_scale
    }

    /// The size of the offscreen color target, or `None` when that size is
    /// empty or does not fit in `u32`.
    pub fn render_resolution(&self) -> (r: Option<(u32, u32)>)
        ensures
            r is Some <==> (0 < self.spec_render_width() <= u32::MAX && 0
                < self.spec_render_height() <= u32::MAX),
            r matches Some((w, h)) ==> w == self.spec_render_width() && h
                == self.spec_render_height(),
    {
        let w = self.window_width.checked_mul(self.render_scale);
        let h = self.window_height.checked_mul(self.render_scale);
        match (w, h) {
            (Some(w), Some(h)) => {
                if w > 0 && h > 0 {
                    Some((w, h))
                } else {
                    None
                }
            },
            _ => None,
        }
    }
}

} // verus!
