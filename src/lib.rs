pub mod actions;
pub mod flows_dst;
pub mod flows_elder;
pub mod flows_node;
pub mod flows_src;
pub mod laws;
pub mod order;
pub mod state;
pub mod table;
pub mod utilities;
