use vstd::prelude::*;

verus! {

/// Connection settings of the message-transport client. Every field may be
/// missing from the settings file; the getters supply the defaults.
#[derive(Debug)]
pub struct Config {
    pub qos: Option<i32>,
    pub mqtt_host: Option<String>,
    pub client_id: Option<String>,
    pub user_name: Option<String>,
    pub password: Option<String>,
}

/// The text of an optional setting, empty when it is missing.
pub open spec fn setting_text(s: Option<String>) -> Seq<char> {
    match s {
        Some(v) => v@,
        None => Seq::empty(),
    }
}

/// Borrows the text of an optional setting, or the empty string.
fn setting_str(s: &Option<String>) -> (r: &str)
    ensures
        r@ == setting_text(*s),
{
    match s {
        Some(v) => v.as_str(),
        None => {
            proof {
                reveal_strlit("");
            }
            ""
        },
    }
}

impl Config {
    /// Settings as read from the settings file.
    pub fn new(
        qos: Option<i32>,
        mqtt_host: Option<String>,
        client_id: Option<String>,
        user_name: Option<String>,
        password: Option<String>,
    ) -> (r: Self)
        ensures
            r.qos == qos,
            r.mqtt_host == mqtt_host,
            r.client_id == client_id,
            r.user_name == user_name,
            r.password == password,
    {
        Config { qos, mqtt_host, client_id, user_name, password }
    }

    /// Quality-of-service level for subscriptions; 1 when not configured.
    pub fn qos(&self) -> (r: i32)
        ensures
            r == match self.qos {
                Some(q) => q,
                None => 1i32,
            },
    {
        match self.qos {
            Some(q) => q,
            None => 1,
        }
    }

    pub fn host(&self) -> (r: &str)
        ensures
            r@ == setting_text(self.mqtt_host),
    {
        setting_str(&self.mqtt_host)
    }

    pub fn client_id(&self) -> (r: &str)
        ensures
            r@ == setting_text(self.client_id),
    {
        setting_str(&self.client_id)
    }

    pub fn user_name(&self) -> (r: &str)
        ensures
            r@ == setting_text(self.user_name),
    {
        setting_str(&self.user_name)
    }

    pub fn password(&self) -> (r: &str)
        ensures
            r@ == setting_text(self.password),
    {
        setting_str(&self.password)
    }
}

} // verus!
