//! Typed inventory, rendering and staging logic for Linux network platforms.

pub mod batch_laws;
pub mod binding_laws;
pub mod change;
pub mod command_line_laws;
pub mod command_reading_laws;
pub mod digest;
pub mod execution_laws;
pub mod firewall;
pub mod firewall_command;
pub mod firewall_error;
pub mod firewall_inventory;
pub mod firewall_iptables;
pub mod firewall_iptables_execute;
pub mod firewall_model;
pub mod firewall_nft;
pub mod firewall_nft_execute;
pub mod firewall_openwrt_execute;
pub mod firewall_project;
pub mod firewall_readback_laws;
pub mod firewall_reading_laws;
pub mod firewall_runtime;
pub mod firewall_state_laws;
pub mod firewall_uci;
pub mod firewall_zones;
pub mod inspection_laws;
pub mod inventory_match;
pub mod iptables_line_laws;
pub mod iptables_rule_laws;
pub mod isolation_laws;
pub mod items;
pub mod json;
pub mod net;
pub mod net_laws;
pub mod network_decode;
pub mod network_model;
pub mod network_openwrt;
pub mod network_openwrt_execute;
pub mod network_reconcile;
pub mod network_runtime;
pub mod network_runtime_execute;
pub mod network_runtime_stage;
pub mod network_stage;
pub mod nft_rule_laws;
pub mod number_laws;
pub mod openwrt_platform;
pub mod openwrt_platform_laws;
pub mod option_reading_laws;
pub mod order;
pub mod parse;
pub mod path;
pub mod platform;
pub mod platform_laws;
pub mod printable_laws;
pub mod readback_laws;
pub mod recognition_laws;
pub mod reconcile_laws;
pub mod restore_laws;
pub mod rule_reading_laws;
pub mod runtime_laws;
pub mod runtime_reading_laws;
pub mod save_laws;
pub mod snapshot_laws;
pub mod stage_laws;
pub mod table_laws;
pub mod tally_laws;
pub mod text;
pub mod transaction;
pub mod uci_laws;
pub mod uci_order_laws;
pub mod uci_render;
pub mod views;
pub mod wireless_model;
pub mod wireless_openwrt;
pub mod wireless_openwrt_execute;
pub mod wireless_readback_laws;
pub mod wireless_reading_laws;
pub mod zone_laws;
