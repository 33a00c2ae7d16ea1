//! The entries that come with the library, and sets of them.

use vstd::prelude::*;
use crate::entries::diagnostics::{
    PerfUiEntryCpuUsage, PerfUiEntryEntityCount, PerfUiEntryFPS, PerfUiEntryFPSAverage,
    PerfUiEntryFPSPctLow, PerfUiEntryFPSWorst, PerfUiEntryFrameCount, PerfUiEntryFrameTime,
    PerfUiEntryFrameTimeWorst, PerfUiEntryMemUsage, PerfUiEntrySystemCpuUsage,
    PerfUiEntrySystemMemUsage,
};
use crate::entries::render::{PerfUiEntryRenderCpuTime, PerfUiEntryRenderGpuTime};
use crate::entries::time::{
    PerfUiEntryClock, PerfUiEntryFixedOverstep, PerfUiEntryFixedTimeStep, PerfUiEntryRunningTime,
};
use crate::entries::window::{
    PerfUiEntryCursorPosition, PerfUiEntryWindowMode, PerfUiEntryWindowPresentMode,
    PerfUiEntryWindowResolution, PerfUiEntryWindowScaleFactor,
};
use crate::ui::root::PerfUiRoot;
use crate::utils::{nth_key, SortKeys};

pub mod diagnostics;
pub mod render;
pub mod time;
pub mod window;

verus! {

/// Every entry that comes with the library.
///
/// The entries take their sort keys from one source, in the order of the
/// fields: in that order they stand in the overlay.
#[derive(Debug)]
pub struct PerfUiAllEntries {
    pub fps: PerfUiEntryFPS,
    pub fps_avg: PerfUiEntryFPSAverage,
    pub fps_low: PerfUiEntryFPSPctLow,
    pub fps_worst: PerfUiEntryFPSWorst,
    pub frametime: PerfUiEntryFrameTime,
    pub frametime_worst: PerfUiEntryFrameTimeWorst,
    pub frame_count: PerfUiEntryFrameCount,
    pub entity_count: PerfUiEntryEntityCount,
    pub cpu_usage: PerfUiEntryCpuUsage,
    pub mem_usage: PerfUiEntryMemUsage,
    pub system_cpu_usage: PerfUiEntrySystemCpuUsage,
    pub system_mem_usage: PerfUiEntrySystemMemUsage,
    pub render_cpu: PerfUiEntryRenderCpuTime,
    pub render_gpu: PerfUiEntryRenderGpuTime,
    pub fixed_timestep: PerfUiEntryFixedTimeStep,
    pub fixed_overstep: PerfUiEntryFixedOverstep,
    pub time_running: PerfUiEntryRunningTime,
    pub time_clock: PerfUiEntryClock,
    pub cursor_position: PerfUiEntryCursorPosition,
    pub window_resolution: PerfUiEntryWindowResolution,
    pub window_scale_factor: PerfUiEntryWindowScaleFactor,
    pub window_mode: PerfUiEntryWindowMode,
    pub window_present_mode: PerfUiEntryWindowPresentMode,
}

impl PerfUiAllEntries {
    /// The entries with their default settings, each with the next key of the
    /// source.
    pub fn new(keys: &mut SortKeys) -> (set: Self)
        ensures
            set.fps.is_default(nth_key(old(keys).upcoming(), 0)),
            set.fps_avg.is_default(nth_key(old(keys).upcoming(), 1)),
            set.fps_low.is_default(nth_key(old(keys).upcoming(), 2)),
            set.fps_worst.is_default(nth_key(old(keys).upcoming(), 3)),
            set.frametime.is_default(nth_key(old(keys).upcoming(), 4)),
            set.frametime_worst.is_default(nth_key(old(keys).upcoming(), 5)),
            set.frame_count.is_default(nth_key(old(keys).upcoming(), 6)),
            set.entity_count.is_default(nth_key(old(keys).upcoming(), 7)),
            set.cpu_usage.is_default(nth_key(old(keys).upcoming(), 8)),
            set.mem_usage.is_default(nth_key(old(keys).upcoming(), 9)),
            set.system_cpu_usage.is_default(nth_key(old(keys).upcoming(), 10)),
            set.system_mem_usage.is_default(nth_key(old(keys).upcoming(), 11)),
            set.render_cpu.is_default(nth_key(old(keys).upcoming(), 12)),
            set.render_gpu.is_default(nth_key(old(keys).upcoming(), 13)),
            set.fixed_timestep.is_default(nth_key(old(keys).upcoming(), 14)),
            set.fixed_overstep.is_default(nth_key(old(keys).upcoming(), 15)),
            set.time_running.is_default(nth_key(old(keys).upcoming(), 16)),
            set.time_clock.is_default(nth_key(old(keys).upcoming(), 17)),
            set.cursor_position.is_default(nth_key(old(keys).upcoming(), 18)),
            set.window_resolution.is_default(nth_key(old(keys).upcoming(), 19)),
            set.window_scale_factor.is_default(nth_key(old(keys).upcoming(), 20)),
            set.window_mode.is_default(nth_key(old(keys).upcoming(), 21)),
            set.window_present_mode.is_default(nth_key(old(keys).upcoming(), 22)),
            final(keys).upcoming() == nth_key(old(keys).upcoming(), 23),
    {
        reveal_with_fuel(nth_key, 24);
        let fps = PerfUiEntryFPS::new(keys.next_sort_key());
        let fps_avg = PerfUiEntryFPSAverage::new(keys.next_sort_key());
        let fps_low = PerfUiEntryFPSPctLow::new(keys.next_sort_key());
        let fps_worst = PerfUiEntryFPSWorst::new(keys.next_sort_key());
        let frametime = PerfUiEntryFrameTime::new(keys.next_sort_key());
        let frametime_worst = PerfUiEntryFrameTimeWorst::new(keys.next_sort_key());
        let frame_count = PerfUiEntryFrameCount::new(keys.next_sort_key());
        let entity_count = PerfUiEntryEntityCount::new(keys.next_sort_key());
        let cpu_usage = PerfUiEntryCpuUsage::new(keys.next_sort_key());
        let mem_usage = PerfUiEntryMemUsage::new(keys.next_sort_key());
        let system_cpu_usage = PerfUiEntrySystemCpuUsage::new(keys.next_sort_key());
        let system_mem_usage = PerfUiEntrySystemMemUsage::new(keys.next_sort_key());
        let render_cpu = PerfUiEntryRenderCpuTime::new(keys.next_sort_key());
        let render_gpu = PerfUiEntryRenderGpuTime::new(keys.next_sort_key());
        let fixed_timestep = PerfUiEntryFixedTimeStep::new(keys.next_sort_key());
        let fixed_overstep = PerfUiEntryFixedOverstep::new(keys.next_sort_key());
        let time_running = PerfUiEntryRunningTime::new(keys.next_sort_key());
        let time_clock = PerfUiEntryClock::new(keys.next_sort_key());
        let cursor_position = PerfUiEntryCursorPosition::new(keys.next_sort_key());
        let window_resolution = PerfUiEntryWindowResolution::new(keys.next_sort_key());
        let window_scale_factor = PerfUiEntryWindowScaleFactor::new(keys.next_sort_key());
        let window_mode = PerfUiEntryWindowMode::new(keys.next_sort_key());
        let window_present_mode = PerfUiEntryWindowPresentMode::new(keys.next_sort_key());
        PerfUiAllEntries {
            fps,
            fps_avg,
            fps_low,
            fps_worst,
            frametime,
            frametime_worst,
            frame_count,
            entity_count,
            cpu_usage,
            mem_usage,
            system_cpu_usage,
            system_mem_usage,
            render_cpu,
            render_gpu,
            fixed_timestep,
            fixed_overstep,
            time_running,
            time_clock,
            cursor_position,
            window_resolution,
            window_scale_factor,
            window_mode,
            window_present_mode,
        }
    }
}

/// A choice of the entries that are of most use.
///
/// The entries take their sort keys from one source, in the order of the
/// fields: in that order they stand in the overlay.
#[derive(Debug)]
pub struct PerfUiDefaultEntries {
    pub fps_avg: PerfUiEntryFPSAverage,
    pub fps_low: PerfUiEntryFPSPctLow,
    pub frametime: PerfUiEntryFrameTime,
    pub render_cpu: PerfUiEntryRenderCpuTime,
    pub render_gpu: PerfUiEntryRenderGpuTime,
    pub entity_count: PerfUiEntryEntityCount,
}

impl PerfUiDefaultEntries {
    /// The entries with their default settings, each with the next key of the
    /// source.
    pub fn new(keys: &mut SortKeys) -> (set: Self)
        ensures
            set.fps_avg.is_default(nth_key(old(keys).upcoming(), 0)),
            set.fps_low.is_default(nth_key(old(keys).upcoming(), 1)),
            set.frametime.is_default(nth_key(old(keys).upcoming(), 2)),
            set.render_cpu.is_default(nth_key(old(keys).upcoming(), 3)),
            set.render_gpu.is_default(nth_key(old(keys).upcoming(), 4)),
            set.entity_count.is_default(nth_key(old(keys).upcoming(), 5)),
            final(keys).upcoming() == nth_key(old(keys).upcoming(), 6),
    {
        reveal_with_fuel(nth_key, 7);
        let fps_avg = PerfUiEntryFPSAverage::new(keys.next_sort_key());
        let fps_low = PerfUiEntryFPSPctLow::new(keys.next_sort_key());
        let frametime = PerfUiEntryFrameTime::new(keys.next_sort_key());
        let render_cpu = PerfUiEntryRenderCpuTime::new(keys.next_sort_key());
        let render_gpu = PerfUiEntryRenderGpuTime::new(keys.next_sort_key());
        let entity_count = PerfUiEntryEntityCount::new(keys.next_sort_key());
        PerfUiDefaultEntries {
            fps_avg,
            fps_low,
            frametime,
            render_cpu,
            render_gpu,
            entity_count,
        }
    }
}

/// The entries for the frame rate.
///
/// The entries take their sort keys from one source, in the order of the
/// fields: in that order they stand in the overlay.
#[derive(Debug)]
pub struct PerfUiFramerateEntries {
    pub fps: PerfUiEntryFPS,
    pub fps_avg: PerfUiEntryFPSAverage,
    pub fps_low: PerfUiEntryFPSPctLow,
    pub fps_worst: PerfUiEntryFPSWorst,
    pub frametime: PerfUiEntryFrameTime,
    pub frametime_worst: PerfUiEntryFrameTimeWorst,
}

impl PerfUiFramerateEntries {
    /// The entries with their default settings, each with the next key of the
    /// source.
    pub fn new(keys: &mut SortKeys) -> (set: Self)
        ensures
            set.fps.is_default(nth_key(old(keys).upcoming(), 0)),
            set.fps_avg.is_default(nth_key(old(keys).upcoming(), 1)),
            set.fps_low.is_default(nth_key(old(keys).upcoming(), 2)),
            set.fps_worst.is_default(nth_key(old(keys).upcoming(), 3)),
            set.frametime.is_default(nth_key(old(keys).upcoming(), 4)),
            set.frametime_worst.is_default(nth_key(old(keys).upcoming(), 5)),
            final(keys).upcoming() == nth_key(old(keys).upcoming(), 6),
    {
        reveal_with_fuel(nth_key, 7);
        let fps = PerfUiEntryFPS::new(keys.next_sort_key());
        let fps_avg = PerfUiEntryFPSAverage::new(keys.next_sort_key());
        let fps_low = PerfUiEntryFPSPctLow::new(keys.next_sort_key());
        let fps_worst = PerfUiEntryFPSWorst::new(keys.next_sort_key());
        let frametime = PerfUiEntryFrameTime::new(keys.next_sort_key());
        let frametime_worst = PerfUiEntryFrameTimeWorst::new(keys.next_sort_key());
        PerfUiFramerateEntries {
            fps,
            fps_avg,
            fps_low,
            fps_worst,
            frametime,
            frametime_worst,
        }
    }
}

/// The entries for rendering.
///
/// The entries take their sort keys from one source, in the order of the
/// fields: in that order they stand in the overlay.
#[derive(Debug)]
pub struct PerfUiRenderEntries {
    pub render_cpu: PerfUiEntryRenderCpuTime,
    pub render_gpu: PerfUiEntryRenderGpuTime,
}

impl PerfUiRenderEntries {
    /// The entries with their default settings, each with the next key of the
    /// source.
    pub fn new(keys: &mut SortKeys) -> (set: Self)
        ensures
            set.render_cpu.is_default(nth_key(old(keys).upcoming(), 0)),
            set.render_gpu.is_default(nth_key(old(keys).upcoming(), 1)),
            final(keys).upcoming() == nth_key(old(keys).upcoming(), 2),
    {
        reveal_with_fuel(nth_key, 3);
        let render_cpu = PerfUiEntryRenderCpuTime::new(keys.next_sort_key());
        let render_gpu = PerfUiEntryRenderGpuTime::new(keys.next_sort_key());
        PerfUiRenderEntries {
            render_cpu,
            render_gpu,
        }
    }
}

/// The entries for the use of the machine.
///
/// The entries take their sort keys from one source, in the order of the
/// fields: in that order they stand in the overlay.
#[derive(Debug)]
pub struct PerfUiSystemEntries {
    pub cpu_usage: PerfUiEntryCpuUsage,
    pub mem_usage: PerfUiEntryMemUsage,
}

impl PerfUiSystemEntries {
    /// The entries with their default settings, each with the next key of the
    /// source.
    pub fn new(keys: &mut SortKeys) -> (set: Self)
        ensures
            set.cpu_usage.is_default(nth_key(old(keys).upcoming(), 0)),
            set.mem_usage.is_default(nth_key(old(keys).upcoming(), 1)),
            final(keys).upcoming() == nth_key(old(keys).upcoming(), 2),
    {
        reveal_with_fuel(nth_key, 3);
        let cpu_usage = PerfUiEntryCpuUsage::new(keys.next_sort_key());
        let mem_usage = PerfUiEntryMemUsage::new(keys.next_sort_key());
        PerfUiSystemEntries {
            cpu_usage,
            mem_usage,
        }
    }
}

/// The entries for the fixed time step.
///
/// The entries take their sort keys from one source, in the order of the
/// fields: in that order they stand in the overlay.
#[derive(Debug)]
pub struct PerfUiFixedTimeEntries {
    pub fixed_timestep: PerfUiEntryFixedTimeStep,
    pub fixed_overstep: PerfUiEntryFixedOverstep,
}

impl PerfUiFixedTimeEntries {
    /// The entries with their default settings, each with the next key of the
    /// source.
    pub fn new(keys: &mut SortKeys) -> (set: Self)
        ensures
            set.fixed_timestep.is_default(nth_key(old(keys).upcoming(), 0)),
            set.fixed_overstep.is_default(nth_key(old(keys).upcoming(), 1)),
            final(keys).upcoming() == nth_key(old(keys).upcoming(), 2),
    {
        reveal_with_fuel(nth_key, 3);
        let fixed_timestep = PerfUiEntryFixedTimeStep::new(keys.next_sort_key());
        let fixed_overstep = PerfUiEntryFixedOverstep::new(keys.next_sort_key());
        PerfUiFixedTimeEntries {
            fixed_timestep,
            fixed_overstep,
        }
    }
}

/// The entries for the windows.
///
/// The entries take their sort keys from one source, in the order of the
/// fields: in that order they stand in the overlay.
#[derive(Debug)]
pub struct PerfUiWindowEntries {
    pub cursor_position: PerfUiEntryCursorPosition,
    pub window_resolution: PerfUiEntryWindowResolution,
    pub window_scale_factor: PerfUiEntryWindowScaleFactor,
    pub window_mode: PerfUiEntryWindowMode,
    pub window_present_mode: PerfUiEntryWindowPresentMode,
}

impl PerfUiWindowEntries {
    /// The entries with their default settings, each with the next key of the
    /// source.
    pub fn new(keys: &mut SortKeys) -> (set: Self)
        ensures
            set.cursor_position.is_default(nth_key(old(keys).upcoming(), 0)),
            set.window_resolution.is_default(nth_key(old(keys).upcoming(), 1)),
            set.window_scale_factor.is_default(nth_key(old(keys).upcoming(), 2)),
            set.window_mode.is_default(nth_key(old(keys).upcoming(), 3)),
            set.window_present_mode.is_default(nth_key(old(keys).upcoming(), 4)),
            final(keys).upcoming() == nth_key(old(keys).upcoming(), 5),
    {
        reveal_with_fuel(nth_key, 6);
        let cursor_position = PerfUiEntryCursorPosition::new(keys.next_sort_key());
        let window_resolution = PerfUiEntryWindowResolution::new(keys.next_sort_key());
        let window_scale_factor = PerfUiEntryWindowScaleFactor::new(keys.next_sort_key());
        let window_mode = PerfUiEntryWindowMode::new(keys.next_sort_key());
        let window_present_mode = PerfUiEntryWindowPresentMode::new(keys.next_sort_key());
        PerfUiWindowEntries {
            cursor_position,
            window_resolution,
            window_scale_factor,
            window_mode,
            window_present_mode,
        }
    }
}

/// An overlay as a whole: the settings of the overlay, and a full set of
/// entries.
///
/// The entries take their sort keys from one source, in the order of the
/// fields: in that order they stand in the overlay.
#[derive(Debug)]
pub struct PerfUiCompleteBundle {
    pub root: PerfUiRoot,
    pub fps: PerfUiEntryFPS,
    pub fps_worst: PerfUiEntryFPSWorst,
    pub frametime: PerfUiEntryFrameTime,
    pub frametime_worst: PerfUiEntryFrameTimeWorst,
    pub frame_count: PerfUiEntryFrameCount,
    pub entity_count: PerfUiEntryEntityCount,
    pub cpu_usage: PerfUiEntryCpuUsage,
    pub mem_usage: PerfUiEntryMemUsage,
    pub fixed_timestep: PerfUiEntryFixedTimeStep,
    pub fixed_overstep: PerfUiEntryFixedOverstep,
    pub time_running: PerfUiEntryRunningTime,
    pub time_clock: PerfUiEntryClock,
    pub cursor_position: PerfUiEntryCursorPosition,
    pub window_resolution: PerfUiEntryWindowResolution,
    pub window_scale_factor: PerfUiEntryWindowScaleFactor,
    pub window_mode: PerfUiEntryWindowMode,
    pub window_present_mode: PerfUiEntryWindowPresentMode,
}

impl PerfUiCompleteBundle {
    /// The default settings, and the entries with their default settings,
    /// each with the next key of the source.
    pub fn new(keys: &mut SortKeys) -> (set: Self)
        ensures
            set.root.is_default(),
            set.fps.is_default(nth_key(old(keys).upcoming(), 0)),
            set.fps_worst.is_default(nth_key(old(keys).upcoming(), 1)),
            set.frametime.is_default(nth_key(old(keys).upcoming(), 2)),
            set.frametime_worst.is_default(nth_key(old(keys).upcoming(), 3)),
            set.frame_count.is_default(nth_key(old(keys).upcoming(), 4)),
            set.entity_count.is_default(nth_key(old(keys).upcoming(), 5)),
            set.cpu_usage.is_default(nth_key(old(keys).upcoming(), 6)),
            set.mem_usage.is_default(nth_key(old(keys).upcoming(), 7)),
            set.fixed_timestep.is_default(nth_key(old(keys).upcoming(), 8)),
            set.fixed_overstep.is_default(nth_key(old(keys).upcoming(), 9)),
            set.time_running.is_default(nth_key(old(keys).upcoming(), 10)),
            set.time_clock.is_default(nth_key(old(keys).upcoming(), 11)),
            set.cursor_position.is_default(nth_key(old(keys).upcoming(), 12)),
            set.window_resolution.is_default(nth_key(old(keys).upcoming(), 13)),
            set.window_scale_factor.is_default(nth_key(old(keys).upcoming(), 14)),
            set.window_mode.is_default(nth_key(old(keys).upcoming(), 15)),
            set.window_present_mode.is_default(nth_key(old(keys).upcoming(), 16)),
            final(keys).upcoming() == nth_key(old(keys).upcoming(), 17),
    {
        reveal_with_fuel(nth_key, 18);
        let root = PerfUiRoot::default();
        let fps = PerfUiEntryFPS::new(keys.next_sort_key());
        let fps_worst = PerfUiEntryFPSWorst::new(keys.next_sort_key());
        let frametime = PerfUiEntryFrameTime::new(keys.next_sort_key());
        let frametime_worst = PerfUiEntryFrameTimeWorst::new(keys.next_sort_key());
        let frame_count = PerfUiEntryFrameCount::new(keys.next_sort_key());
        let entity_count = PerfUiEntryEntityCount::new(keys.next_sort_key());
        let cpu_usage = PerfUiEntryCpuUsage::new(keys.next_sort_key());
        let mem_usage = PerfUiEntryMemUsage::new(keys.next_sort_key());
        let fixed_timestep = PerfUiEntryFixedTimeStep::new(keys.next_sort_key());
        let fixed_overstep = PerfUiEntryFixedOverstep::new(keys.next_sort_key());
        let time_running = PerfUiEntryRunningTime::new(keys.next_sort_key());
        let time_clock = PerfUiEntryClock::new(keys.next_sort_key());
        let cursor_position = PerfUiEntryCursorPosition::new(keys.next_sort_key());
        let window_resolution = PerfUiEntryWindowResolution::new(keys.next_sort_key());
        let window_scale_factor = PerfUiEntryWindowScaleFactor::new(keys.next_sort_key());
        let window_mode = PerfUiEntryWindowMode::new(keys.next_sort_key());
        let window_present_mode = PerfUiEntryWindowPresentMode::new(keys.next_sort_key());
        PerfUiCompleteBundle {
            root,
            fps,
            fps_worst,
            frametime,
            frametime_worst,
            frame_count,
            entity_count,
            cpu_usage,
            mem_usage,
            fixed_timestep,
            fixed_overstep,
            time_running,
            time_clock,
            cursor_position,
            window_resolution,
            window_scale_factor,
            window_mode,
            window_present_mode,
        }
    }
}

} // verus!
