//! Process-wide configuration: network binding, document-store identity,
//! queue shape and form layout. Constructed once at startup and never
//! mutated afterwards; every accessor returns exactly the stored value.

use vstd::prelude::*;

verus! {

/// Network, database, queue and form settings of one deployment.
pub struct Config {
    pub network: NetworkConfig,
    pub database: DatabaseConfig,
    pub queue: QueueConfig,
    pub form: FormConfig,
}

impl Config {
    pub fn new(
        network: NetworkConfig,
        database: DatabaseConfig,
        queue: QueueConfig,
        form: FormConfig,
    ) -> (r: Config)
        ensures
            r.network == network,
            r.database == database,
            r.queue == queue,
            r.form == form,
    {
        Config { network, database, queue, form }
    }

    pub fn network(&self) -> (r: &NetworkConfig)
        ensures
            r == self.network,
    {
        &self.network
    }

    pub fn database(&self) -> (r: &DatabaseConfig)
        ensures
            r == self.database,
    {
        &self.database
    }

    pub fn queue(&self) -> (r: &QueueConfig)
        ensures
            r == self.queue,
    {
        &self.queue
    }

    pub fn form(&self) -> (r: &FormConfig)
        ensures
            r == self.form,
    {
        &self.form
    }
}

/// Where the HTTP surface binds.
pub struct NetworkConfig {
    pub ip_address: String,
    pub port: String,
}

impl NetworkConfig {
    pub fn new(ip_address: String, port: String) -> (r: NetworkConfig)
        ensures
            r.ip_address == ip_address,
            r.port == port,
    {
        NetworkConfig { ip_address, port }
    }

    pub fn ip_address(&self) -> (r: &str)
        ensures
            r@ == self.ip_address@,
    {
        self.ip_address.as_str()
    }

    pub fn port(&self) -> (r: &str)
        ensures
            r@ == self.port@,
    {
        self.port.as_str()
    }
}

/// Identity of the remote document store and of the credential used for it.
pub struct DatabaseConfig {
    pub firebase_project_id: String,
    pub collection: String,
    pub service_account_key_path: String,
}

impl DatabaseConfig {
    pub fn new(
        firebase_project_id: String,
        collection: String,
        service_account_key_path: String,
    ) -> (r: DatabaseConfig)
        ensures
            r.firebase_project_id == firebase_project_id,
            r.collection == collection,
            r.service_account_key_path == service_account_key_path,
    {
        DatabaseConfig { firebase_project_id, collection, service_account_key_path }
    }

    pub fn firebase_project_id(&self) -> (r: &str)
        ensures
            r@ == self.firebase_project_id@,
    {
        self.firebase_project_id.as_str()
    }

    pub fn collection(&self) -> (r: &str)
        ensures
            r@ == self.collection@,
    {
        self.collection.as_str()
    }

    pub fn service_account_key_path(&self) -> (r: &str)
        ensures
            r@ == self.service_account_key_path@,
    {
        self.service_account_key_path.as_str()
    }
}

/// Shape of the queues the deployment offers.
pub struct QueueConfig {
    pub queues: i64,
    pub queue_slots: i64,
    pub days_range: i64,
}

impl QueueConfig {
    pub fn new(queues: i64, queue_slots: i64, days_range: i64) -> (r: QueueConfig)
        ensures
            r.queues == queues,
            r.queue_slots == queue_slots,
            r.days_range == days_range,
    {
        QueueConfig { queues, queue_slots, days_range }
    }

    pub fn queues(&self) -> (r: i64)
        ensures
            r == self.queues,
    {
        self.queues
    }

    pub fn queue_slots(&self) -> (r: i64)
        ensures
            r == self.queue_slots,
    {
        self.queue_slots
    }

    pub fn days_range(&self) -> (r: i64)
        ensures
            r == self.days_range,
    {
        self.days_range
    }
}

/// The fields the booking form shows.
pub struct FormConfig {
    pub fields: Vec<FormField>,
}

impl FormConfig {
    pub fn new(fields: Vec<FormField>) -> (r: FormConfig)
        ensures
            r.fields == fields,
    {
        FormConfig { fields }
    }

    pub fn fields(&self) -> (r: &Vec<FormField>)
        ensures
            r == self.fields,
    {
        &self.fields
    }
}

/// One field of the booking form.
pub struct FormField {
    pub name: String,
    pub field_type: String,
    pub required: bool,
}

impl FormField {
    pub fn new(name: String, field_type: String, required: bool) -> (r: FormField)
        ensures
            r.name == name,
            r.field_type == field_type,
            r.required == required,
    {
        FormField { name, field_type, required }
    }

    pub fn name(&self) -> (r: &str)
        ensures
            r@ == self.name@,
    {
        self.name.as_str()
    }

    pub fn field_type(&self) -> (r: &str)
        ensures
            r@ == self.field_type@,
    {
        self.field_type.as_str()
    }

    pub fn required(&self) -> (r: bool)
        ensures
            r == self.required,
    {
        self.required
    }
}

/// The configuration loader accepts exactly one file name.
pub fn is_config_file_name(name: &str) -> (r: bool)
    ensures
        r == (name@ == "Config.toml"@),
{
    crate::json::str_eq(name, "Config.toml")
}

} // verus!
