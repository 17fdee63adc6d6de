//! What the server is configured with, and whether it can run on it.

use crate::addr::{cidr_value, Cidr};
use crate::codec::strings_view;
use crate::error::{ConfigFault, TunnelError};
use crate::pool::IpPool;
use vstd::prelude::*;
use vstd::string::*;
use vstd::utf8::encode_utf8;

verus! {

/// The first fault among the routes, if any of them is neither an address
/// nor `address/mask`.
pub open spec fn routes_fault(routes: Seq<Seq<char>>) -> Option<ConfigFault>
    decreases routes.len(),
{
    if routes.len() == 0 {
        None
    } else {
        match cidr_value(encode_utf8(routes[0])) {
            Err(f) => Some(f),
            Ok(_) => routes_fault(routes.skip(1)),
        }
    }
}

/// Whether a server can run on these settings, and if not, the first thing
/// that is wrong with them. The server's own address must be a single
/// host. The clients' addresses may be a single host or a block. Each
/// route must be an address or a block.
pub open spec fn server_settings_fault(
    server_ip: Seq<char>,
    client_ip: Seq<char>,
    routes: Seq<Seq<char>>,
) -> Option<ConfigFault> {
    match cidr_value(encode_utf8(server_ip)) {
        Err(f) => Some(f),
        Ok(Cidr::Network { .. }) => Some(ConfigFault::NotAHost),
        Ok(Cidr::Host) => match cidr_value(encode_utf8(client_ip)) {
            Err(f) => Some(f),
            Ok(_) => routes_fault(routes),
        },
    }
}

/// Checks the settings that a server is to run on.
pub fn config_check(server_ip: &str, client_ip: &str, client_routes: &Vec<String>) -> (r: Result<
    (),
    TunnelError,
>)
    ensures
        match server_settings_fault(server_ip@, client_ip@, strings_view(client_routes@)) {
            Some(f) => r == Err::<(), TunnelError>(TunnelError::ConfigError(f)),
            None => r is Ok,
        },
{
    match IpPool::test_new("test", server_ip) {
        Err(e) => {
            return Err(e);
        },
        Ok(pool) => {
            if !pool.is_host_mode() {
                return Err(TunnelError::ConfigError(ConfigFault::NotAHost));
            }
        },
    }
    match IpPool::test_new("test", client_ip) {
        Err(e) => {
            return Err(e);
        },
        Ok(_) => {},
    }
    let ghost all = strings_view(client_routes@);
    let mut i: usize = 0;
    assert(all.skip(0) =~= all);
    while i < client_routes.len()
        invariant
            i <= client_routes@.len(),
            all == strings_view(client_routes@),
            routes_fault(all) == routes_fault(all.skip(i as int)),
            cidr_value(encode_utf8(server_ip@)) == Ok::<Cidr, ConfigFault>(Cidr::Host),
            cidr_value(encode_utf8(client_ip@)) is Ok,
        decreases client_routes@.len() - i,
    {
        assert(all.skip(i as int)[0] == client_routes@[i as int]@);
        assert(all.skip(i as int).skip(1) =~= all.skip(i + 1));
        match IpPool::test_new("test", client_routes[i].as_str()) {
            Err(e) => {
                return Err(e);
            },
            Ok(_) => {},
        }
        i += 1;
    }
    Ok(())
}

} // verus!
