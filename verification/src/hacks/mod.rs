pub mod ammo;
pub mod esp;
pub mod godmode;
