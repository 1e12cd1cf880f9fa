pub mod clickhouse;
