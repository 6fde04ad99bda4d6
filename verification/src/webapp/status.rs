use vstd::prelude::*;

verus! {

/// The state of the connection to the other players of a world.
#[derive(Clone, Copy, Debug, PartialEq, Eq, Structural)]
pub enum WsStatus {
    CONNECTING,
    CONNECTED,
    DISCONNECTED,
}

impl Default for WsStatus {
    /// Not connected.
    fn default() -> (r: WsStatus)
        ensures
            r == WsStatus::DISCONNECTED,
    {
        WsStatus::DISCONNECTED
    }
}

/// The classes of the icon that shows a state of the connection.
pub open spec fn icon_classes_of(s: WsStatus) -> Seq<char> {
    match s {
        WsStatus::CONNECTED => "fas fa-book"@,
        WsStatus::CONNECTING => "fas fa-book-alt"@,
        WsStatus::DISCONNECTED => "fas fa-book-dead"@,
    }
}

/// The classes of the text that shows a state of the connection.
pub open spec fn text_classes_of(s: WsStatus) -> Seq<char> {
    match s {
        WsStatus::CONNECTED => "icon has-text-success"@,
        WsStatus::CONNECTING => "icon has-text-info"@,
        WsStatus::DISCONNECTED => "icon has-text-danger"@,
    }
}

impl WsStatus {
    /// The classes of the icon that shows the state.
    pub fn icon_classes(&self) -> (r: String)
        ensures
            r@ == icon_classes_of(*self),
    {
        String::from_str(
            match self {
                WsStatus::CONNECTED => "fas fa-book",
                WsStatus::CONNECTING => "fas fa-book-alt",
                WsStatus::DISCONNECTED => "fas fa-book-dead",
            },
        )
    }

    /// The classes of the text that shows the state.
    pub fn text_classes(&self) -> (r: String)
        ensures
            r@ == text_classes_of(*self),
    {
        String::from_str(
            match self {
                WsStatus::CONNECTED => "icon has-text-success",
                WsStatus::CONNECTING => "icon has-text-info",
                WsStatus::DISCONNECTED => "icon has-text-danger",
            },
        )
    }
}

/// The address of the websocket of a world: `wss` for a page served over
/// https, `ws` otherwise; none where there is no world yet.
pub fn ws_url(protocol: &str, host: &str, namespace: &str, story: &str, world_id: Option<&str>) -> (r: Option<
    String,
>)
    ensures
        match world_id {
            Some(id) => r is Some && r->0@ == (if protocol@ == "https:"@ {
                "wss"@
            } else {
                "ws"@
            }) + "://"@ + host@ + "/ws/"@ + namespace@ + "/"@ + story@ + "/"@ + id@ + "/"@,
            None => r is None,
        },
{
    let id = match world_id {
        Some(id) => id,
        None => {
            return None;
        },
    };
    let secure = String::from_str(protocol).eq(&String::from_str("https:"));
    let mut url = String::from_str(if secure { "wss" } else { "ws" });
    url.append("://");
    url.append(host);
    url.append("/ws/");
    url.append(namespace);
    url.append("/");
    url.append(story);
    url.append("/");
    url.append(id);
    url.append("/");
    Some(url)
}

} // verus!
