//! The page script that reads the state of a presented local media element.
use vstd::prelude::*;

verus! {

/// Reports the state of the page's media player element, or why it could not be read.
pub const MEDIA_STATE_SCRIPT: &'static str = r#"
(() => {
  try {
    const media = document.getElementById("portus-media-player");
    if (!media) return { ok: false, state: null, error: "media element is unavailable" };
    const finite = (value) => Number.isFinite(value) ? value : null;
    return {
      ok: true,
      state: {
        playing: !media.paused && !media.ended,
        paused: media.paused,
        ended: media.ended,
        duration_seconds: finite(media.duration),
        position_seconds: finite(media.currentTime),
        volume: Number.isFinite(media.volume) ? media.volume : 1,
        error: media.dataset.portusError || (media.error ? ("media error " + media.error.code + ": " + (media.error.message || "unknown decoder error")) : null),
      },
      error: null,
    };
  } catch (error) {
    return { ok: false, state: null, error: error && error.message ? String(error.message) : String(error) };
  }
})()
"#;

} // verus!
