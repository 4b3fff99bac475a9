pub mod calendar;
pub mod domain;
pub mod markup;
pub mod rotten_tomatoes;
