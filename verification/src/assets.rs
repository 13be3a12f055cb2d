//! Embedded text assets: the usage text of the gateway program and the
//! companion console page with its script. The page and script are plain
//! browser-side assets; nothing in them is part of the bridging logic.
use vstd::prelude::*;

use crate::util::{ascii, lit};

verus! {

/// The usage text of the gateway program.
pub open spec fn usage_text() -> Seq<u8> {
    ascii(
        "USAGE:\n  codex-monitor-web-gateway [--listen <addr>] [--daemon <addr>] [--daemon-token <token>] [--api-token <token> | --insecure-no-auth]\n\nOPTIONS:\n  --listen <addr>          Bind address for browser clients (default: 127.0.0.1:8741)\n  --daemon <addr>          codex-monitor-daemon address (default: 127.0.0.1:4732)\n  --daemon-token <token>   Token used for daemon auth (or CODEX_MONITOR_DAEMON_TOKEN)\n  --api-token <token>      Token required from browser clients (or CODEX_MONITOR_WEB_TOKEN)\n  --insecure-no-auth       Disable browser auth (LAN dev only)\n  -h, --help               Show this help\n"@,
    )
}

/// Render the usage text.
pub fn usage() -> (r: &'static [u8])
    ensures
        r@ == usage_text(),
{
    proof {
        reveal_strlit(
            "USAGE:\n  codex-monitor-web-gateway [--listen <addr>] [--daemon <addr>] [--daemon-token <token>] [--api-token <token> | --insecure-no-auth]\n\nOPTIONS:\n  --listen <addr>          Bind address for browser clients (default: 127.0.0.1:8741)\n  --daemon <addr>          codex-monitor-daemon address (default: 127.0.0.1:4732)\n  --daemon-token <token>   Token used for daemon auth (or CODEX_MONITOR_DAEMON_TOKEN)\n  --api-token <token>      Token required from browser clients (or CODEX_MONITOR_WEB_TOKEN)\n  --insecure-no-auth       Disable browser auth (LAN dev only)\n  -h, --help               Show this help\n",
        );
        assert(
            "USAGE:\n  codex-monitor-web-gateway [--listen <addr>] [--daemon <addr>] [--daemon-token <token>] [--api-token <token> | --insecure-no-auth]\n\nOPTIONS:\n  --listen <addr>          Bind address for browser clients (default: 127.0.0.1:8741)\n  --daemon <addr>          codex-monitor-daemon address (default: 127.0.0.1:4732)\n  --daemon-token <token>   Token used for daemon auth (or CODEX_MONITOR_DAEMON_TOKEN)\n  --api-token <token>      Token required from browser clients (or CODEX_MONITOR_WEB_TOKEN)\n  --insecure-no-auth       Disable browser auth (LAN dev only)\n  -h, --help               Show this help\n".is_ascii()
        );
    }
    lit(
        "USAGE:\n  codex-monitor-web-gateway [--listen <addr>] [--daemon <addr>] [--daemon-token <token>] [--api-token <token> | --insecure-no-auth]\n\nOPTIONS:\n  --listen <addr>          Bind address for browser clients (default: 127.0.0.1:8741)\n  --daemon <addr>          codex-monitor-daemon address (default: 127.0.0.1:4732)\n  --daemon-token <token>   Token used for daemon auth (or CODEX_MONITOR_DAEMON_TOKEN)\n  --api-token <token>      Token required from browser clients (or CODEX_MONITOR_WEB_TOKEN)\n  --insecure-no-auth       Disable browser auth (LAN dev only)\n  -h, --help               Show this help\n",
    )
}

/// The companion console page.
pub open spec fn html_text() -> Seq<u8> {
    ascii(
        "<!doctype html>\n<html lang=\"en\">\n<head>\n<meta charset=\"utf-8\" />\n<meta name=\"viewport\" content=\"width=device-width, initial-scale=1\" />\n<title>Codex Monitor Web Companion</title>\n</head>\n<body>\n<h1>Codex Monitor Web Companion</h1>\n<p id=\"status\">Connecting</p>\n<div id=\"workspaces\"></div>\n<pre id=\"messages\"></pre>\n<form id=\"composer\">\n<textarea id=\"input\" placeholder=\"Continue the conversation\"></textarea>\n<button id=\"sendBtn\" type=\"submit\">Send</button>\n</form>\n<script src=\"/web-companion.js\"></script>\n</body>\n</html>\n"@,
    )
}

/// Render the companion console page.
pub fn build_html() -> (r: &'static [u8])
    ensures
        r@ == html_text(),
{
    proof {
        reveal_strlit(
            "<!doctype html>\n<html lang=\"en\">\n<head>\n<meta charset=\"utf-8\" />\n<meta name=\"viewport\" content=\"width=device-width, initial-scale=1\" />\n<title>Codex Monitor Web Companion</title>\n</head>\n<body>\n<h1>Codex Monitor Web Companion</h1>\n<p id=\"status\">Connecting</p>\n<div id=\"workspaces\"></div>\n<pre id=\"messages\"></pre>\n<form id=\"composer\">\n<textarea id=\"input\" placeholder=\"Continue the conversation\"></textarea>\n<button id=\"sendBtn\" type=\"submit\">Send</button>\n</form>\n<script src=\"/web-companion.js\"></script>\n</body>\n</html>\n",
        );
        assert(
            "<!doctype html>\n<html lang=\"en\">\n<head>\n<meta charset=\"utf-8\" />\n<meta name=\"viewport\" content=\"width=device-width, initial-scale=1\" />\n<title>Codex Monitor Web Companion</title>\n</head>\n<body>\n<h1>Codex Monitor Web Companion</h1>\n<p id=\"status\">Connecting</p>\n<div id=\"workspaces\"></div>\n<pre id=\"messages\"></pre>\n<form id=\"composer\">\n<textarea id=\"input\" placeholder=\"Continue the conversation\"></textarea>\n<button id=\"sendBtn\" type=\"submit\">Send</button>\n</form>\n<script src=\"/web-companion.js\"></script>\n</body>\n</html>\n".is_ascii()
        );
    }
    lit(
        "<!doctype html>\n<html lang=\"en\">\n<head>\n<meta charset=\"utf-8\" />\n<meta name=\"viewport\" content=\"width=device-width, initial-scale=1\" />\n<title>Codex Monitor Web Companion</title>\n</head>\n<body>\n<h1>Codex Monitor Web Companion</h1>\n<p id=\"status\">Connecting</p>\n<div id=\"workspaces\"></div>\n<pre id=\"messages\"></pre>\n<form id=\"composer\">\n<textarea id=\"input\" placeholder=\"Continue the conversation\"></textarea>\n<button id=\"sendBtn\" type=\"submit\">Send</button>\n</form>\n<script src=\"/web-companion.js\"></script>\n</body>\n</html>\n",
    )
}

/// The companion console script.
pub open spec fn js_text() -> Seq<u8> {
    ascii(
        "const token = new URL(window.location.href).searchParams.get('token') || '';\n\nasync function api(path, options = {}) {\n  const response = await fetch(path, {\n    ...options,\n    headers: {\n      'Content-Type': 'application/json',\n      'X-Codex-Monitor-Token': token,\n      ...(options.headers || {}),\n    },\n  });\n  const payload = await response.json().catch(() => ({}));\n  if (!response.ok) {\n    throw new Error(payload.error || ('HTTP ' + response.status));\n  }\n  return payload;\n}\n\nconst state = { workspaceId: '', threadId: '' };\n\nasync function refresh() {\n  const payload = await api('/api/workspaces');\n  const workspaces = Array.isArray(payload.workspaces) ? payload.workspaces : [];\n  const box = document.getElementById('workspaces');\n  box.textContent = workspaces.map((w) => w.name || w.id).join(', ');\n  if (!state.workspaceId && workspaces.length) {\n    state.workspaceId = workspaces[0].id;\n  }\n  document.getElementById('status').textContent = 'Connected';\n}\n\nasync function sendMessage(text) {\n  if (!state.workspaceId) {\n    throw new Error('No workspace selected');\n  }\n  if (!state.threadId) {\n    const created = await api('/api/start-thread', {\n      method: 'POST',\n      body: JSON.stringify({ workspaceId: state.workspaceId }),\n    });\n    const root = created.thread || {};\n    state.threadId = (root.thread && root.thread.id) || root.threadId || root.id || '';\n  }\n  await api('/api/send', {\n    method: 'POST',\n    body: JSON.stringify({\n      workspaceId: state.workspaceId,\n      threadId: state.threadId,\n      text: text,\n    }),\n  });\n}\n\ndocument.getElementById('composer').addEventListener('submit', (event) => {\n  event.preventDefault();\n  const input = document.getElementById('input');\n  const text = (input.value || '').trim();\n  if (!text) {\n    return;\n  }\n  sendMessage(text).then(() => {\n    input.value = '';\n  }).catch((error) => {\n    document.getElementById('status').textContent = error.message || 'Failed to send';\n  });\n});\n\nrefresh().catch((error) => {\n  document.getElementById('status').textContent = error.message || 'Connection failed';\n});\nsetInterval(() => {\n  refresh().catch(() => {});\n}, 7000);\n"@,
    )
}

/// Render the companion console script.
pub fn companion_javascript() -> (r: &'static [u8])
    ensures
        r@ == js_text(),
{
    proof {
        reveal_strlit(
            "const token = new URL(window.location.href).searchParams.get('token') || '';\n\nasync function api(path, options = {}) {\n  const response = await fetch(path, {\n    ...options,\n    headers: {\n      'Content-Type': 'application/json',\n      'X-Codex-Monitor-Token': token,\n      ...(options.headers || {}),\n    },\n  });\n  const payload = await response.json().catch(() => ({}));\n  if (!response.ok) {\n    throw new Error(payload.error || ('HTTP ' + response.status));\n  }\n  return payload;\n}\n\nconst state = { workspaceId: '', threadId: '' };\n\nasync function refresh() {\n  const payload = await api('/api/workspaces');\n  const workspaces = Array.isArray(payload.workspaces) ? payload.workspaces : [];\n  const box = document.getElementById('workspaces');\n  box.textContent = workspaces.map((w) => w.name || w.id).join(', ');\n  if (!state.workspaceId && workspaces.length) {\n    state.workspaceId = workspaces[0].id;\n  }\n  document.getElementById('status').textContent = 'Connected';\n}\n\nasync function sendMessage(text) {\n  if (!state.workspaceId) {\n    throw new Error('No workspace selected');\n  }\n  if (!state.threadId) {\n    const created = await api('/api/start-thread', {\n      method: 'POST',\n      body: JSON.stringify({ workspaceId: state.workspaceId }),\n    });\n    const root = created.thread || {};\n    state.threadId = (root.thread && root.thread.id) || root.threadId || root.id || '';\n  }\n  await api('/api/send', {\n    method: 'POST',\n    body: JSON.stringify({\n      workspaceId: state.workspaceId,\n      threadId: state.threadId,\n      text: text,\n    }),\n  });\n}\n\ndocument.getElementById('composer').addEventListener('submit', (event) => {\n  event.preventDefault();\n  const input = document.getElementById('input');\n  const text = (input.value || '').trim();\n  if (!text) {\n    return;\n  }\n  sendMessage(text).then(() => {\n    input.value = '';\n  }).catch((error) => {\n    document.getElementById('status').textContent = error.message || 'Failed to send';\n  });\n});\n\nrefresh().catch((error) => {\n  document.getElementById('status').textContent = error.message || 'Connection failed';\n});\nsetInterval(() => {\n  refresh().catch(() => {});\n}, 7000);\n",
        );
        assert(
            "const token = new URL(window.location.href).searchParams.get('token') || '';\n\nasync function api(path, options = {}) {\n  const response = await fetch(path, {\n    ...options,\n    headers: {\n      'Content-Type': 'application/json',\n      'X-Codex-Monitor-Token': token,\n      ...(options.headers || {}),\n    },\n  });\n  const payload = await response.json().catch(() => ({}));\n  if (!response.ok) {\n    throw new Error(payload.error || ('HTTP ' + response.status));\n  }\n  return payload;\n}\n\nconst state = { workspaceId: '', threadId: '' };\n\nasync function refresh() {\n  const payload = await api('/api/workspaces');\n  const workspaces = Array.isArray(payload.workspaces) ? payload.workspaces : [];\n  const box = document.getElementById('workspaces');\n  box.textContent = workspaces.map((w) => w.name || w.id).join(', ');\n  if (!state.workspaceId && workspaces.length) {\n    state.workspaceId = workspaces[0].id;\n  }\n  document.getElementById('status').textContent = 'Connected';\n}\n\nasync function sendMessage(text) {\n  if (!state.workspaceId) {\n    throw new Error('No workspace selected');\n  }\n  if (!state.threadId) {\n    const created = await api('/api/start-thread', {\n      method: 'POST',\n      body: JSON.stringify({ workspaceId: state.workspaceId }),\n    });\n    const root = created.thread || {};\n    state.threadId = (root.thread && root.thread.id) || root.threadId || root.id || '';\n  }\n  await api('/api/send', {\n    method: 'POST',\n    body: JSON.stringify({\n      workspaceId: state.workspaceId,\n      threadId: state.threadId,\n      text: text,\n    }),\n  });\n}\n\ndocument.getElementById('composer').addEventListener('submit', (event) => {\n  event.preventDefault();\n  const input = document.getElementById('input');\n  const text = (input.value || '').trim();\n  if (!text) {\n    return;\n  }\n  sendMessage(text).then(() => {\n    input.value = '';\n  }).catch((error) => {\n    document.getElementById('status').textContent = error.message || 'Failed to send';\n  });\n});\n\nrefresh().catch((error) => {\n  document.getElementById('status').textContent = error.message || 'Connection failed';\n});\nsetInterval(() => {\n  refresh().catch(() => {});\n}, 7000);\n".is_ascii()
        );
    }
    lit(
        "const token = new URL(window.location.href).searchParams.get('token') || '';\n\nasync function api(path, options = {}) {\n  const response = await fetch(path, {\n    ...options,\n    headers: {\n      'Content-Type': 'application/json',\n      'X-Codex-Monitor-Token': token,\n      ...(options.headers || {}),\n    },\n  });\n  const payload = await response.json().catch(() => ({}));\n  if (!response.ok) {\n    throw new Error(payload.error || ('HTTP ' + response.status));\n  }\n  return payload;\n}\n\nconst state = { workspaceId: '', threadId: '' };\n\nasync function refresh() {\n  const payload = await api('/api/workspaces');\n  const workspaces = Array.isArray(payload.workspaces) ? payload.workspaces : [];\n  const box = document.getElementById('workspaces');\n  box.textContent = workspaces.map((w) => w.name || w.id).join(', ');\n  if (!state.workspaceId && workspaces.length) {\n    state.workspaceId = workspaces[0].id;\n  }\n  document.getElementById('status').textContent = 'Connected';\n}\n\nasync function sendMessage(text) {\n  if (!state.workspaceId) {\n    throw new Error('No workspace selected');\n  }\n  if (!state.threadId) {\n    const created = await api('/api/start-thread', {\n      method: 'POST',\n      body: JSON.stringify({ workspaceId: state.workspaceId }),\n    });\n    const root = created.thread || {};\n    state.threadId = (root.thread && root.thread.id) || root.threadId || root.id || '';\n  }\n  await api('/api/send', {\n    method: 'POST',\n    body: JSON.stringify({\n      workspaceId: state.workspaceId,\n      threadId: state.threadId,\n      text: text,\n    }),\n  });\n}\n\ndocument.getElementById('composer').addEventListener('submit', (event) => {\n  event.preventDefault();\n  const input = document.getElementById('input');\n  const text = (input.value || '').trim();\n  if (!text) {\n    return;\n  }\n  sendMessage(text).then(() => {\n    input.value = '';\n  }).catch((error) => {\n    document.getElementById('status').textContent = error.message || 'Failed to send';\n  });\n});\n\nrefresh().catch((error) => {\n  document.getElementById('status').textContent = error.message || 'Connection failed';\n});\nsetInterval(() => {\n  refresh().catch(() => {});\n}, 7000);\n",
    )
}

} // verus!
