//! Page scripts that record a window's console output and hand back a bounded snapshot.
use vstd::prelude::*;

verus! {

/// Installed before any page script runs: keeps the newest console entries, each message
/// and source cut to a bound, behind a read-only snapshot accessor.
pub const CONSOLE_INIT_SCRIPT: &'static str = r#"
(() => {
  const snapshotName = "__PORTUS_WINDOW_CONSOLE_SNAPSHOT__";
  if (Object.prototype.hasOwnProperty.call(window, snapshotName)) return;

  const entries = [];
  let truncated = false;
  const maxEntries = 200;
  const maxMessage = 4096;
  const maxSource = 2048;

  const bounded = (value, limit) => {
    const text = String(value ?? "");
    return text.length > limit ? text.slice(0, limit) : text;
  };

  const printable = (value) => {
    if (typeof value === "string") return value;
    if (value instanceof Error) return value.stack || value.message || String(value);
    try {
      const json = JSON.stringify(value);
      if (json !== undefined) return json;
    } catch (_) {}
    try {
      return String(value);
    } catch (_) {
      return "<unprintable>";
    }
  };

  const push = (level, values, source = null, line = null) => {
    try {
      const message = bounded(values.map(printable).join(" "), maxMessage);
      const entry = {
        level,
        message,
        source: source == null ? null : bounded(source, maxSource),
        line: Number.isFinite(line) && line >= 0 ? Math.trunc(line) : null,
      };
      entries.push(entry);
      if (entries.length > maxEntries) {
        entries.splice(0, entries.length - maxEntries);
        truncated = true;
      }
    } catch (_) {}
  };

  for (const level of ["debug", "log", "info", "warn", "error"]) {
    try {
      const original = console[level];
      if (typeof original !== "function") continue;
      console[level] = (...args) => {
        push(level, args);
        return Reflect.apply(original, console, args);
      };
    } catch (_) {}
  }

  window.addEventListener("error", (event) => {
    push(
      "error",
      [event.message || "window error"],
      event.filename || null,
      event.lineno || null,
    );
  }, true);

  window.addEventListener("unhandledrejection", (event) => {
    push("error", ["Unhandled promise rejection:", event.reason]);
  });

  Object.defineProperty(window, snapshotName, {
    value: () => ({
      entries: entries.map((entry) => ({ ...entry })),
      truncated,
    }),
    enumerable: false,
    configurable: false,
    writable: false,
  });
})();
"#;

/// Reads the snapshot recorded by the initialisation script.
pub const CONSOLE_SNAPSHOT_SCRIPT: &'static str = r#"
(() => {
  try {
    const snapshot = window.__PORTUS_WINDOW_CONSOLE_SNAPSHOT__;
    const result = typeof snapshot === "function"
      ? snapshot()
      : { entries: [], truncated: false };
    return {
      ok: true,
      entries: Array.isArray(result.entries) ? result.entries : [],
      truncated: result.truncated === true,
      error: null,
    };
  } catch (error) {
    return {
      ok: false,
      entries: [],
      error: error && error.message ? String(error.message) : String(error),
    };
  }
})()
"#;

} // verus!
