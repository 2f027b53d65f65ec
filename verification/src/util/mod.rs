//! State shared by the platform backends.
pub mod advertise_state;
pub mod callback_slots;
pub mod connect_state;
pub mod event_fanout;
pub mod key_map;
pub mod notify_gate;
pub mod op_slots;
pub mod outlet;
pub mod reply;
pub mod request_map;
pub mod service_queue;
pub mod take_once;
