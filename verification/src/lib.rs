//! Verified decision logic of a line chart: how a channel's curve is
//! drawn between two points, where the x-axis labels go and how they are
//! turned, which point group lies under the pointer, and how an animation
//! frame settles the channels' visibility.
pub mod animation;
pub mod curve;
pub mod interaction;
pub mod labels;
