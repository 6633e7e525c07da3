-- The roles, the schema and the tables of the extension.

do $$
declare
  wanted text;
  marker constant text := 'operational role of pg_wal_budget';
begin
  foreach wanted in array array['pwb_admin', 'pwb_monitor', 'pwb_tenant_setter'] loop
    if not exists (select 1 from pg_catalog.pg_roles where rolname = wanted) then
      execute pg_catalog.format('create role %I nologin', wanted);
      execute pg_catalog.format('comment on role %I is %L', wanted, marker);
    elsif (
      select pg_catalog.shobj_description(oid, 'pg_authid')
        from pg_catalog.pg_roles
       where rolname = wanted
    ) is distinct from marker then
      raise exception 'role % exists and does not belong to pg_wal_budget', wanted;
    end if;
  end loop;
end
$$;

create schema pwb;

create table pwb.policy (
  policy_id integer generated always as identity primary key,
  enabled boolean not null default true,
  mode text not null default 'observe'
    check (mode in ('off', 'observe', 'shadow', 'reject', 'queue')),
  scope_kind text not null
    check (scope_kind in ('tenant', 'role', 'database', 'application', 'composite')),
  scope_value text,
  wal_rate_bytes_per_sec bigint not null check (wal_rate_bytes_per_sec > 0),
  wal_burst_bytes bigint not null check (wal_burst_bytes >= wal_rate_bytes_per_sec),
  priority integer not null default 100
);

create table pwb.query_profile (
  scope_hash numeric(20, 0),
  query_id numeric(20, 0) not null,
  calls numeric(20, 0) not null,
  ewma_wal_bytes numeric(20, 0) not null,
  max_wal_bytes numeric(20, 0) not null,
  last_seen_epoch_ms numeric(20, 0) not null,
  updated_at timestamptz not null default now(),
  constraint query_profile_key unique nulls not distinct (scope_hash, query_id)
);

select pg_catalog.pg_extension_config_dump('pwb.policy', '');
select pg_catalog.pg_extension_config_dump('pwb.query_profile', '');

grant usage on schema pwb to public;
grant select on pwb.policy to pwb_admin, pwb_monitor;
