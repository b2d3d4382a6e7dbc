pub mod innest;
