//! Payroll from recorded shifts: reporting periods, the split of each shift
//! into base-rate and bonus entries, and the totals worked and earned.
pub mod calculate;
pub mod calendar;
pub mod cli;
pub mod time;
pub mod wage_bonuses;
