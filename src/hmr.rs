//! Hot reload: the client script, the messages it receives, and the
//! decisions taken when a watched file changes.
use vstd::prelude::*;
use vstd::string::StringExecFns;

use crate::paths::{extension, file_name, split_path, stem};
use crate::react::{structure_of, transformed, ReactAdapter, TransformContext};
use crate::text::{lower_of, push_str, str_eq, to_lower};

verus! {

/// Messages sent to connected pages.
#[derive(Debug, Clone, PartialEq)]
pub enum HmrMessage {
    /// Reload the whole page.
    Reload,
    /// Replace the definition of one custom element.
    UpdateComponent { tag_name: String, web_component: String },
    /// Replace a page's content.
    UpdateContent { path: String, html: String },
    /// The connection is established.
    Connected,
}

/// The part of the client script before the socket address.
pub const HMR_HEAD: &'static str = r#"
(function() {
  'use strict';

  const ws = new WebSocket('"#;

/// The part of the client script after the socket address.
pub const HMR_TAIL: &'static str = r#"');
  let reconnectAttempts = 0;
  const maxReconnectAttempts = 10;

  ws.onopen = function() {
    console.log('[HMR] Connected');
    reconnectAttempts = 0;
  };

  ws.onmessage = function(event) {
    const msg = JSON.parse(event.data);
    console.log('[HMR]', msg.type);

    switch (msg.type) {
      case 'reload':
        location.reload();
        break;

      case 'update_component':
        try {
          // SECURITY: This executes code from the LOCAL dev server only.
          // This is standard HMR practice (see Vite, Webpack HMR).
          // Production builds do not include this script.
          const script = document.createElement('script');
          script.type = 'module';
          script.textContent = msg.web_component;
          document.head.appendChild(script);
          
          // Force re-render of existing instances
          document.querySelectorAll(msg.tag_name).forEach(function(el) {
            if (el.connectedCallback) {
              el.connectedCallback();
            }
          });
        } catch (e) {
          console.error('[HMR] Failed to update component:', e);
          location.reload();
        }
        break;

      case 'update_content':
        const article = document.querySelector('article');
        if (article) {
          article.innerHTML = msg.html;
        } else {
          location.reload();
        }
        break;

      case 'connected':
        console.log('[HMR] Server acknowledged connection');
        break;
    }
  };

  ws.onclose = function() {
    console.log('[HMR] Disconnected');
    if (reconnectAttempts < maxReconnectAttempts) {
      reconnectAttempts++;
      setTimeout(function() {
        console.log('[HMR] Reconnecting...');
        location.reload();
      }, 1000 * reconnectAttempts);
    }
  };

  ws.onerror = function(e) {
    console.error('[HMR] WebSocket error:', e);
  };
})();
"#;

/// The client script, connecting to `ws_url`. It runs the code it receives
/// and is meant for the local development server only.
pub fn hmr_client_script(ws_url: &str) -> (r: String)
    ensures
        r@ == HMR_HEAD@ + ws_url@ + HMR_TAIL@,
{
    let mut s = String::from_str(HMR_HEAD);
    push_str(&mut s, ws_url);
    push_str(&mut s, HMR_TAIL);
    s
}

/// A classified change of a watched file.
#[derive(Debug, Clone, PartialEq)]
pub enum WatchEvent {
    /// A documentation page was modified.
    MdxModified(String),
    /// A component source was modified.
    ComponentModified(String),
    Created(String),
    Deleted(String),
    /// Any other modification.
    Modified(String),
}

/// What happened to a file, as the watcher reports it.
#[derive(Debug, Clone, Copy, PartialEq, Eq, Structural)]
pub enum ChangeKind {
    Create,
    Remove,
    Modify,
    Other,
}

/// The class of a change: creations and removals as such; modifications of
/// `.mdx`/`.md` files are page changes, of `.tsx`/`.jsx`/`.ts`/`.js` files
/// component changes, of anything else generic; other kinds are ignored.
pub open spec fn classify(path: Seq<char>, kind: ChangeKind) -> Option<(int, Seq<char>)> {
    let ext = extension(file_name(path));
    match kind {
        ChangeKind::Create => Some((2, path)),
        ChangeKind::Remove => Some((3, path)),
        ChangeKind::Modify => if ext == "mdx"@ || ext == "md"@ {
            Some((0, path))
        } else if ext == "tsx"@ || ext == "jsx"@ || ext == "ts"@ || ext == "js"@ {
            Some((1, path))
        } else {
            Some((4, path))
        },
        ChangeKind::Other => None,
    }
}

pub open spec fn event_view(e: WatchEvent) -> (int, Seq<char>) {
    match e {
        WatchEvent::MdxModified(p) => (0, p@),
        WatchEvent::ComponentModified(p) => (1, p@),
        WatchEvent::Created(p) => (2, p@),
        WatchEvent::Deleted(p) => (3, p@),
        WatchEvent::Modified(p) => (4, p@),
    }
}

/// Classify a file change.
pub fn classify_event(path: &str, kind: ChangeKind) -> (r: Option<WatchEvent>)
    ensures
        r matches Some(e) ==> classify(path@, kind) == Some(event_view(e)),
        r is None ==> classify(path@, kind) is None,
{
    let p = String::from_str(path);
    match kind {
        ChangeKind::Create => Some(WatchEvent::Created(p)),
        ChangeKind::Remove => Some(WatchEvent::Deleted(p)),
        ChangeKind::Modify => {
            let (_, _, _, ext) = split_path(path);
            let e = ext.as_str();
            if str_eq(e, "mdx") || str_eq(e, "md") {
                Some(WatchEvent::MdxModified(p))
            } else if str_eq(e, "tsx") || str_eq(e, "jsx") || str_eq(e, "ts") || str_eq(e, "js") {
                Some(WatchEvent::ComponentModified(p))
            } else {
                Some(WatchEvent::Modified(p))
            }
        },
        ChangeKind::Other => None,
    }
}

/// The tag a changed component file is previewed under: its lower-cased
/// stem and `-preview`, or `component-preview` for an empty stem.
pub open spec fn preview_tag(path: Seq<char>) -> Seq<char> {
    let st = stem(file_name(path));
    if st.len() == 0 {
        "component-preview"@
    } else {
        lower_of(st) + "-preview"@
    }
}

/// The tag a changed component file is previewed under.
pub fn preview_tag_for(path: &str) -> (r: String)
    ensures
        r@ == preview_tag(path@),
{
    let (_, _, st, _) = split_path(path);
    if st.as_str().is_empty() {
        String::from_str("component-preview")
    } else {
        let mut t = to_lower(st.as_str());
        push_str(&mut t, "-preview");
        t
    }
}

/// The message for a changed component whose source is `source`: its new
/// definition under `tag_name`, or a full reload when it has no structure.
pub fn component_message(source: &str, tag_name: &str) -> (r: HmrMessage)
    ensures
        structure_of(source@) is None ==> r == HmrMessage::Reload,
        structure_of(source@) matches Some(st) ==> (r matches HmrMessage::UpdateComponent {
            tag_name: t,
            web_component: w,
        } && t@ == tag_name@ && w@ == transformed(tag_name@, st).web_component),
{
    let adapter = ReactAdapter::new();
    let ctx = TransformContext { import_map: Vec::new() };
    match adapter.transform(source, tag_name, &ctx) {
        Ok(b) => HmrMessage::UpdateComponent { tag_name: b.tag_name, web_component: b.web_component },
        Err(_) => HmrMessage::Reload,
    }
}

/// What a watched change asks for.
#[derive(Debug, Clone, PartialEq)]
pub enum WatchAction {
    /// Reload every page.
    Reload,
    /// Read the component file at `path` and send its new definition
    /// under `tag_name`.
    Retransform { path: String, tag_name: String },
}

/// The action for a watched change: a component change is re-generated,
/// everything else reloads.
pub fn watch_action(event: &WatchEvent) -> (r: WatchAction)
    ensures
        event matches WatchEvent::ComponentModified(p) ==> (r matches WatchAction::Retransform {
            path: q,
            tag_name: t,
        } && q@ == p@ && t@ == preview_tag(p@)),
        !(event is ComponentModified) ==> r == WatchAction::Reload,
{
    match event {
        WatchEvent::ComponentModified(p) => WatchAction::Retransform {
            path: p.clone(),
            tag_name: preview_tag_for(p.as_str()),
        },
        _ => WatchAction::Reload,
    }
}

/// Settings of the development server.
#[derive(Debug, Clone)]
pub struct DevServerConfig {
    pub docs_dir: String,
    pub components_dir: String,
    pub port: u16,
    pub host: String,
    /// Open a browser on start.
    pub open: bool,
}

impl Default for DevServerConfig {
    fn default() -> (r: Self)
        ensures
            r.docs_dir@ == "docs"@,
            r.components_dir@ == "src/components"@,
            r.port == 7777,
            r.host@ == "127.0.0.1"@,
            r.open,
    {
        DevServerConfig {
            docs_dir: String::from_str("docs"),
            components_dir: String::from_str("src/components"),
            port: 7777,
            host: String::from_str("127.0.0.1"),
            open: true,
        }
    }
}

/// The development server's settings; `app` runs it.
pub struct DevServer {
    pub config: DevServerConfig,
}

impl DevServer {
    pub fn new(config: DevServerConfig) -> (r: Self)
        ensures
            r.config == config,
    {
        DevServer { config }
    }
}

} // verus!
