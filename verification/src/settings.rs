//! Configuration as plain data, and the small computations made over it: the
//! pagination window and the gateway's forwarding target. Loading the
//! configuration from files or the environment is the edge layer's job; the
//! library only consumes the values.
use vstd::prelude::*;
use crate::codec::new_string;

verus! {

pub struct DatabaseSettings {
    pub user_db_url: String,
    pub admin_db_url: String,
    pub game_db_url: String,
}

pub struct RedisSettings {
    pub uri: String,
}

pub struct JwtSettings {
    pub secret: String,
}

pub struct ServiceSettings {
    pub user_service_port: u16,
    pub admin_service_port: u16,
    pub game_service_port: u16,
    pub gateway_service_port: u16,
}

pub struct DomainSettings {
    pub user_service_domain: String,
    pub admin_service_domain: String,
    pub game_service_domain: String,
    pub gateway_service_domain: String,
}

pub struct KafkaSettings {
    pub user_url: String,
    pub admin_url: String,
    pub game_url: String,
    pub user_topics: Vec<String>,
    pub admin_topics: Vec<String>,
    pub game_topics: Vec<String>,
    pub user_consumer_group: String,
    pub admin_subscribe_topics: Vec<String>,
    pub game_subscribe_topics: Vec<String>,
    pub game_consumer_group: String,
    pub user_subscribe_topics: Vec<String>,
}

pub struct Settings {
    pub service: ServiceSettings,
    pub databases: DatabaseSettings,
    pub redis: RedisSettings,
    pub jwt: JwtSettings,
    pub kafka: KafkaSettings,
    pub domain: DomainSettings,
}

/// A pagination request: 1-based page number and page size.
pub struct Paginate {
    pub page: i64,
    pub limit: i64,
}

impl Paginate {
    /// The offset of the first row of the page.
    pub fn offset(&self) -> (r: i64)
        requires
            self.page >= 1,
            self.limit >= 0,
            (self.page - 1) * self.limit <= i64::MAX,
        ensures
            r == (self.page - 1) * self.limit,
            r >= 0,
    {
        proof {
            assert((self.page - 1) * self.limit >= 0) by (nonlinear_arith)
                requires
                    self.page >= 1,
                    self.limit >= 0,
            {}
        }
        (self.page - 1) * self.limit
    }
}

/// The base address of a service behind the gateway.
pub open spec fn base_url_of(domain: Seq<char>, port: u16, endpoint: Seq<char>) -> Seq<char> {
    "http://"@ + domain + ":"@ + crate::codec::enc_nat(port as nat) + "/"@ + endpoint
}

fn base_url(domain: &str, port: u16, endpoint: &str) -> (r: String)
    ensures
        r@ == base_url_of(domain@, port, endpoint@),
{
    let mut out = new_string();
    out.append("http://");
    out.append(domain);
    out.append(":");
    crate::codec::push_nat(&mut out, port as u128);
    out.append("/");
    out.append(endpoint);
    proof {
        assert(out@ =~= base_url_of(domain@, port, endpoint@));
    }
    out
}

impl Settings {
    /// The forwarding target for a gateway request: the service named by the
    /// first path segment, or nothing when no such service exists.
    pub fn forward_target(&self, service: &str, endpoint: &str) -> (r: Option<String>)
        ensures
            service@ == "user"@ ==> (r matches Some(u) && u@ == base_url_of(
                self.domain.user_service_domain@,
                self.service.user_service_port,
                endpoint@,
            )),
            service@ == "admin"@ ==> (r matches Some(u) && u@ == base_url_of(
                self.domain.admin_service_domain@,
                self.service.admin_service_port,
                endpoint@,
            )),
            service@ == "game"@ ==> (r matches Some(u) && u@ == base_url_of(
                self.domain.game_service_domain@,
                self.service.game_service_port,
                endpoint@,
            )),
            service@ != "user"@ && service@ != "admin"@ && service@ != "game"@ ==> r is None,
    {
        proof {
            reveal_strlit("user");
            reveal_strlit("admin");
            reveal_strlit("game");
            assert("user"@.len() == 4);
            assert("admin"@.len() == 5);
            assert("game"@.len() == 4);
            assert("user"@[0] == 'u');
            assert("game"@[0] == 'g');
            assert("user"@ != "admin"@);
            assert("user"@ != "game"@);
            assert("admin"@ != "game"@);
        }
        if crate::codec::str_eq(service, "user") {
            Some(
                base_url(
                    self.domain.user_service_domain.as_str(),
                    self.service.user_service_port,
                    endpoint,
                ),
            )
        } else if crate::codec::str_eq(service, "admin") {
            Some(
                base_url(
                    self.domain.admin_service_domain.as_str(),
                    self.service.admin_service_port,
                    endpoint,
                ),
            )
        } else if crate::codec::str_eq(service, "game") {
            Some(
                base_url(
                    self.domain.game_service_domain.as_str(),
                    self.service.game_service_port,
                    endpoint,
                ),
            )
        } else {
            None
        }
    }
}

} // verus!
