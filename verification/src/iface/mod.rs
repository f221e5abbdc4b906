//! Settings and checks for virtual TUN and TAP network interfaces, and the arithmetic of
//! configuring them.

pub mod setup;
pub mod tap;
pub mod tun;
pub mod configure;

pub use self::setup::IfaceBuildError;
pub use self::tap::{EtherIfaceBuilder, UnboundEtherIface};
pub use self::tun::IpIfaceBuilder;
