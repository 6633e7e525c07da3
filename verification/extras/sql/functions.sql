-- The functions of the pwb schema, and who may call them. They run as their owner, so that no client
-- needs rights on the tables; whom they run for is tested by the extension.

create function pwb.version() returns text
language sql immutable parallel safe
as 'select @extschema@.pg_wal_budget_version()';

create function pwb.preload_status() returns text
language sql stable parallel safe
as 'select @extschema@.pg_wal_budget_preload_status()';

create function pwb.set_tenant(tenant text) returns void
language sql security definer set search_path = pg_catalog, pg_temp
as 'select @extschema@.pwb_set_tenant($1)';

create function pwb.clear_tenant() returns void
language sql security definer set search_path = pg_catalog, pg_temp
as 'select @extschema@.pwb_clear_tenant()';

create function pwb.create_policy(
  scope_kind text,
  scope_value text,
  wal_rate_bytes_per_sec bigint,
  wal_burst_bytes bigint,
  mode text default 'observe',
  priority integer default 100
) returns integer
language sql security definer set search_path = pg_catalog, pg_temp
as 'select @extschema@.pwb_create_policy($1, $2, $3, $4, $5, $6)';

create function pwb.set_policy_mode(policy_id integer, mode text) returns void
language sql security definer set search_path = pg_catalog, pg_temp
as 'select @extschema@.pwb_set_policy_mode($1, $2)';

create function pwb.update_policy(
  policy_id integer,
  wal_rate_bytes_per_sec bigint,
  wal_burst_bytes bigint,
  priority integer default null
) returns void
language sql security definer set search_path = pg_catalog, pg_temp
as 'select @extschema@.pwb_update_policy($1, $2, $3, $4)';

create function pwb.disable_policy(policy_id integer) returns void
language sql security definer set search_path = pg_catalog, pg_temp
as 'select @extschema@.pwb_disable_policy($1)';

create function pwb.counters() returns table (
  accepted_statements bigint,
  rejected_statements bigint,
  shadow_would_reject_count bigint,
  predicted_wal_bytes bigint,
  actual_wal_bytes bigint,
  absolute_prediction_error bigint,
  scope_debt_bytes bigint,
  missing_actual_wal_count bigint,
  internal_fail_open_count bigint,
  aborted_after_charge_count bigint
)
language sql stable security definer set search_path = pg_catalog, pg_temp
as 'select * from @extschema@.pwb_counters()';

create function pwb.scope_stats() returns table (
  policy_id integer,
  scope_hash bigint,
  available_bytes bigint,
  max_burst_bytes bigint,
  rate_bytes_per_sec bigint,
  debt_bytes bigint,
  last_refill_epoch_ms bigint
)
language sql stable security definer set search_path = pg_catalog, pg_temp
as 'select * from @extschema@.pwb_scope_stats()';

create function pwb.query_profiles() returns table (
  scope_hash bigint,
  query_id bigint,
  calls bigint,
  ewma_wal_bytes bigint,
  max_wal_bytes bigint,
  last_seen_epoch_ms bigint,
  is_global boolean
)
language sql stable security definer set search_path = pg_catalog, pg_temp
as 'select * from @extschema@.pwb_query_profiles()';

create function pwb.recent_decisions("limit" integer default 100) returns table (
  timestamp_epoch_ms bigint,
  decision_kind text,
  policy_id integer,
  scope_kind text,
  scope_hash bigint,
  query_id bigint,
  statement_class text,
  predicted_wal_bytes bigint,
  actual_wal_bytes bigint,
  available_before bigint,
  available_after bigint,
  reason_code text
)
language sql stable security definer set search_path = pg_catalog, pg_temp
as 'select * from @extschema@.pwb_recent_decisions($1)';

create function pwb.reset_stats() returns void
language sql security definer set search_path = pg_catalog, pg_temp
as 'select @extschema@.pwb_reset_stats()';

create function pwb.reset_profiles() returns void
language sql security definer set search_path = pg_catalog, pg_temp
as 'select @extschema@.pwb_reset_profiles()';

create function pwb.flush_profiles() returns void
language sql security definer set search_path = pg_catalog, pg_temp
as 'select @extschema@.pwb_flush_profiles()';

do $$
declare
  callee regprocedure;
begin
  for callee in
    select p.oid
      from pg_catalog.pg_proc p
      join pg_catalog.pg_depend d on d.classid = 'pg_catalog.pg_proc'::regclass and d.objid = p.oid
      join pg_catalog.pg_extension e
        on d.refclassid = 'pg_catalog.pg_extension'::regclass and d.refobjid = e.oid
     where d.deptype = 'e'
       and e.extname = 'pg_wal_budget'
       and p.proname not in (
         'version', 'preload_status', 'pg_wal_budget_version', 'pg_wal_budget_preload_status'
       )
  loop
    execute pg_catalog.format('revoke all on function %s from public', callee);
  end loop;
end
$$;

grant execute on function
  pwb.create_policy(text, text, bigint, bigint, text, integer),
  pwb.set_policy_mode(integer, text),
  pwb.update_policy(integer, bigint, bigint, integer),
  pwb.disable_policy(integer),
  pwb.reset_stats(),
  pwb.reset_profiles(),
  pwb.flush_profiles()
to pwb_admin;

grant execute on function pwb.set_tenant(text), pwb.clear_tenant()
to pwb_admin, pwb_tenant_setter;

grant execute on function
  pwb.counters(),
  pwb.scope_stats(),
  pwb.query_profiles(),
  pwb.recent_decisions(integer)
to pwb_admin, pwb_monitor;
