//! The management page: a small static site that lists, creates and revokes keys with an admin key
//! that the operator pastes in.

use vstd::prelude::*;

verus! {

/// What the page may load, and who may frame it.
pub const PAGE_POLICY: &'static str =
    "default-src 'none'; script-src 'self'; style-src 'self'; connect-src 'self'; frame-ancestors 'self'";

/// The page.
pub const PAGE: &'static str = "<!doctype html>
<html lang=\"en\">
<head>
<meta charset=\"utf-8\">
<title>API Keys</title>
<link rel=\"stylesheet\" href=\"/plugin-api/v1/admin.css\">
<script src=\"/plugin-api/v1/admin.js\" defer></script>
</head>
<body>
<h1>API Keys</h1>
<form id=\"connect\">
<input id=\"secret\" type=\"password\" placeholder=\"admin key\" autocomplete=\"off\">
<button>Connect</button>
</form>
<p id=\"message\"></p>
<table><tbody id=\"keys\"></tbody></table>
<form id=\"create\">
<input id=\"label\" placeholder=\"label\">
<label><input type=\"checkbox\" name=\"scope\" value=\"read\">read</label>
<label><input type=\"checkbox\" name=\"scope\" value=\"write\">write</label>
<label><input type=\"checkbox\" name=\"scope\" value=\"admin\">admin</label>
<button>Create</button>
</form>
</body>
</html>
";

/// The stylesheet of the page.
pub const STYLESHEET: &'static str = "body { font-family: sans-serif; margin: 1.5rem; }
table { border-collapse: collapse; margin: 1rem 0; }
td { border-bottom: 1px solid #ccc; padding: 0.25rem 0.75rem; }
#message { min-height: 1.5em; overflow-wrap: anywhere; }
";

/// The script of the page. The admin key stays in memory.
pub const SCRIPT: &'static str = "'use strict';
const base = '/plugin-api/v1/keys';
const at = (id) => document.getElementById(id);
let secret = '';

async function call(method, path, body) {
  const headers = { 'x-api-key': secret };
  if (body) headers['content-type'] = 'application/json';
  const reply = await fetch(path, { method, headers, body: body && JSON.stringify(body) });
  const value = await reply.json();
  if (!reply.ok) throw new Error(value.error || String(reply.status));
  return value;
}

async function list() {
  const rows = (await call('GET', base)).keys.map((key) => {
    const row = document.createElement('tr');
    for (const text of [key.masked, key.label || '', key.scopes.join(', ')]) {
      row.appendChild(document.createElement('td')).textContent = text;
    }
    const revoke = row.appendChild(document.createElement('td'))
      .appendChild(document.createElement('button'));
    revoke.textContent = 'Revoke';
    revoke.onclick = () => run(async () => {
      await call('DELETE', base + '/' + key.id);
      await list();
    });
    return row;
  });
  at('keys').replaceChildren(...rows);
}

function run(action) {
  at('message').textContent = '';
  action().catch((error) => { at('message').textContent = error.message; });
}

at('connect').onsubmit = (event) => {
  event.preventDefault();
  secret = at('secret').value.trim();
  run(list);
};

at('create').onsubmit = (event) => {
  event.preventDefault();
  run(async () => {
    const boxes = [...document.querySelectorAll('input[name=scope]:checked')];
    const scopes = boxes.map((box) => box.value);
    const label = at('label').value.trim();
    const made = await call('POST', base, label ? { label, scopes } : { scopes });
    await list();
    at('message').textContent = 'New key, shown once: ' + made.key;
  });
};
";

} // verus!
