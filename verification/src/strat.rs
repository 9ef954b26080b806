pub mod actions;
pub mod cellindex;
pub mod charts;
pub mod colindex;
pub mod hard_chart;
pub mod rowindex;
pub mod soft_chart;
pub mod split_chart;
pub mod surrender_chart;
pub mod table_type;
pub mod tableindex;
