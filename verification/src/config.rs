use vstd::prelude::*;

verus! {

/// Configuration options for the application.
pub struct Config {
    /// The title of the window.
    pub window_title: &'static str,
    /// Whether the window should be maximized at startup.
    pub maximized: bool,
    /// The width of the window.
    pub window_width: u32,
    /// The height of the window.
    pub window_height: u32,
    /// Whether to enable debug mode.
    pub debug: bool,
}

impl Default for Config {
    /// The default configuration: "Gears App", 1280x720, not maximized, debug on.
    fn default() -> (c: Self)
        ensures
            c.window_title@ == "Gears App"@,
            !c.maximized,
            c.window_width == 1280,
            c.window_height == 720,
            c.debug,
    {
        Config {
            window_title: "Gears App",
            maximized: false,
            window_width: 1280,
            window_height: 720,
            debug: true,
        }
    }
}

impl Config {
    /// Sets the window title.
    pub fn with_window_title(self, title: &'static str) -> (c: Self)
        ensures
            c.window_title == title,
            c.maximized == self.maximized,
            c.window_width == self.window_width,
            c.window_height == self.window_height,
            c.debug == self.debug,
    {
        let mut c = self;
        c.window_title = title;
        c
    }

    /// Sets whether the window should be maximized at startup.
    pub fn with_maximized(self, maximized: bool) -> (c: Self)
        ensures
            c.window_title == self.window_title,
            c.maximized == maximized,
            c.window_width == self.window_width,
            c.window_height == self.window_height,
            c.debug == self.debug,
    {
        let mut c = self;
        c.maximized = maximized;
        c
    }

    /// Sets the window size.
    pub fn with_window_size(self, width: u32, height: u32) -> (c: Self)
        ensures
            c.window_title == self.window_title,
            c.maximized == self.maximized,
            c.window_width == width,
            c.window_height == height,
            c.debug == self.debug,
    {
        let mut c = self;
        c.window_width = width;
        c.window_height = height;
        c
    }

    /// Sets whether to enable debug mode.
    pub fn with_debug(self, debug: bool) -> (c: Self)
        ensures
            c.window_title == self.window_title,
            c.maximized == self.maximized,
            c.window_width == self.window_width,
            c.window_height == self.window_height,
            c.debug == debug,
    {
        let mut c = self;
        c.debug = debug;
        c
    }
}

} // verus!
