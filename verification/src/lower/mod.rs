pub mod scopes;
